# sayit

Private, local-only push-to-talk dictation: hold a hotkey, speak, and the
transcript is pasted where the cursor is.

- `src/` is the verified core, checked by Verus: transcript clean-up
  (`text`), the model list (`stt`), settings (`config`), the dictation
  controller's decisions (`daemon`), download bookkeeping (`models`), what
  the menu-bar icon, its menus, the Settings window and the setup assistant
  show (`ui`), and the sample arithmetic of captured audio (`audio`).
  `chars` holds the few `char` and `str` operations of the standard library
  that the rest reasons about.
- `app/` is the program around it: command line, audio capture and
  resampling, the speech model, config files, the threads of the dictation
  service and the AppKit user interface. It hands plain values to the
  library and acts on what comes back.
- `tests/` exercises the library on concrete inputs.
