//! The speech models sayit can run, by name.

use vstd::prelude::*;

use crate::chars::{debug_quoted, debug_str, str_eq};

verus! {

/// Models sayit can run. Keys match `scripts/fetch-models.sh` and the
/// `model` setting in config.toml.
#[derive(Debug, Clone, Copy, PartialEq, Eq, Structural)]
pub enum ModelId {
    ParakeetV2,
}

/// Name used by fetch-models.sh and config.toml.
pub open spec fn model_key(m: ModelId) -> Seq<char> {
    match m {
        ModelId::ParakeetV2 => "parakeet-v2"@,
    }
}

/// Human-readable name for menus.
pub open spec fn model_label(m: ModelId) -> Seq<char> {
    match m {
        ModelId::ParakeetV2 => "Parakeet v2 (English)"@,
    }
}

/// Folder of the model under the data directory's `models` folder.
pub open spec fn model_dir_name(m: ModelId) -> Seq<char> {
    match m {
        ModelId::ParakeetV2 => "parakeet-tdt-0.6b-v2-int8"@,
    }
}

/// The file that fetch-models.sh writes last for the model.
pub open spec fn model_last_file(m: ModelId) -> Seq<char> {
    match m {
        ModelId::ParakeetV2 => "vocab.txt"@,
    }
}

/// Size of the model's download, in bytes (660 MB for Parakeet v2).
pub open spec fn model_download_bytes(m: ModelId) -> u64 {
    match m {
        ModelId::ParakeetV2 => 660_000_000,
    }
}

/// Languages, memory, speed and accuracy, as the model card shows them.
pub open spec fn model_specs(m: ModelId) -> Seq<(Seq<char>, Seq<char>)> {
    match m {
        ModelId::ParakeetV2 => seq![
            ("Languages"@, "English"@),
            ("RAM"@, "1.2 GB"@),
            ("Speed"@, "Very fast"@),
            ("Accuracy"@, "Highest"@),
        ],
    }
}

pub open spec fn pair_views(v: Seq<(&'static str, &'static str)>) -> Seq<(Seq<char>, Seq<char>)> {
    Seq::new(v.len(), |i: int| (v[i].0@, v[i].1@))
}

/// Every model, in menu order.
pub open spec fn all_models() -> Seq<ModelId> {
    seq![ModelId::ParakeetV2]
}

/// The model used when the config names none or an unknown one.
pub open spec fn default_model() -> ModelId {
    ModelId::ParakeetV2
}

/// The keys of `ms` joined by ", ".
pub open spec fn keys_list(ms: Seq<ModelId>) -> Seq<char>
    decreases ms.len(),
{
    if ms.len() == 0 {
        Seq::empty()
    } else if ms.len() == 1 {
        model_key(ms[0])
    } else {
        keys_list(ms.drop_last()) + ", "@ + model_key(ms.last())
    }
}

/// The error for a model name `s` that names no model.
pub open spec fn unknown_model_message(s: Seq<char>) -> Seq<char> {
    "unknown model "@ + debug_quoted(s) + " (available: "@ + keys_list(all_models()) + ")"@
}

/// The warning printed when config.toml names an unknown model.
pub open spec fn fallback_warning(s: Seq<char>) -> Seq<char> {
    "config: "@ + unknown_model_message(s) + "; using "@ + model_key(default_model())
}

impl ModelId {
    pub const DEFAULT: ModelId = ModelId::ParakeetV2;

    /// Every model, in menu order.
    pub fn all() -> (r: Vec<ModelId>)
        ensures
            r@ == all_models(),
    {
        let r = vec![ModelId::ParakeetV2];
        assert(r@ =~= all_models());
        r
    }

    /// Name used by fetch-models.sh and config.toml.
    pub fn key(self) -> (r: &'static str)
        ensures
            r@ == model_key(self),
    {
        match self {
            ModelId::ParakeetV2 => "parakeet-v2",
        }
    }

    /// Human-readable name for menus.
    pub fn label(self) -> (r: &'static str)
        ensures
            r@ == model_label(self),
    {
        match self {
            ModelId::ParakeetV2 => "Parakeet v2 (English)",
        }
    }

    /// Folder of the model under the data directory's `models` folder.
    pub fn dir_name(self) -> (r: &'static str)
        ensures
            r@ == model_dir_name(self),
    {
        match self {
            ModelId::ParakeetV2 => "parakeet-tdt-0.6b-v2-int8",
        }
    }

    /// The file that fetch-models.sh writes last: while it is missing, the
    /// download is not finished.
    pub fn last_file(self) -> (r: &'static str)
        ensures
            r@ == model_last_file(self),
    {
        match self {
            ModelId::ParakeetV2 => "vocab.txt",
        }
    }

    /// Size of the download, in bytes: progress is measured against it.
    pub fn download_bytes(self) -> (r: u64)
        ensures
            r == model_download_bytes(self),
    {
        match self {
            ModelId::ParakeetV2 => 660_000_000,
        }
    }

    /// Languages, memory, speed and accuracy, as the model card shows them.
    pub fn specs(self) -> (r: Vec<(&'static str, &'static str)>)
        ensures
            pair_views(r@) == model_specs(self),
    {
        match self {
            ModelId::ParakeetV2 => {
                let r = vec![
                    ("Languages", "English"),
                    ("RAM", "1.2 GB"),
                    ("Speed", "Very fast"),
                    ("Accuracy", "Highest"),
                ];
                assert(pair_views(r@) =~= model_specs(self));
                r
            },
        }
    }

    /// The model whose key is `s`, if any.
    pub fn from_key(s: &str) -> (r: Option<ModelId>)
        ensures
            r matches Some(m) ==> model_key(m) == s@ && all_models().contains(m),
            r is None ==> forall|m: ModelId| #[trigger] all_models().contains(m) ==> model_key(m) != s@,
    {
        let all = ModelId::all();
        let mut i: usize = 0;
        while i < all.len()
            invariant
                all@ == all_models(),
                i <= all.len(),
                forall|j: int| 0 <= j < i ==> model_key(#[trigger] all@[j]) != s@,
            decreases all.len() - i,
        {
            let m = all[i];
            if str_eq(m.key(), s) {
                assert(all@.contains(m));
                return Some(m);
            }
            i = i + 1;
        }
        assert forall|m: ModelId| #[trigger] all_models().contains(m) implies model_key(m) != s@ by {
            let j = choose|j: int| 0 <= j < all@.len() && all@[j] == m;
            assert(model_key(all@[j]) != s@);
        }
        None
    }

    /// Parses a model name, with the list of valid names in the error.
    pub fn parse_key(s: &str) -> (r: Result<ModelId, String>)
        ensures
            r matches Ok(m) ==> model_key(m) == s@ && all_models().contains(m),
            r matches Err(e) ==> e@ == unknown_model_message(s@)
                && forall|m: ModelId| #[trigger] all_models().contains(m) ==> model_key(m) != s@,
    {
        match ModelId::from_key(s) {
            Some(m) => Ok(m),
            None => {
                let mut msg = String::from_str("unknown model ");
                let quoted = debug_str(s);
                msg.append(quoted.as_str());
                msg.append(" (available: ");
                let keys = keys_text();
                msg.append(keys.as_str());
                msg.append(")");
                Err(msg)
            },
        }
    }

    /// The model that the `model` setting of config.toml names. A name this
    /// build doesn't know (e.g. a removed model) falls back to the default
    /// instead of stopping sayit from starting; the warning to print then
    /// comes second.
    pub fn from_config(s: &str) -> (r: (ModelId, Option<String>))
        ensures
            (exists|m: ModelId| #[trigger] all_models().contains(m) && model_key(m) == s@) ==> {
                &&& model_key(r.0) == s@
                &&& r.1 is None
            },
            (forall|m: ModelId| #[trigger] all_models().contains(m) ==> model_key(m) != s@) ==> {
                &&& r.0 == default_model()
                &&& r.1 matches Some(w) && w@ == fallback_warning(s@)
            },
    {
        match ModelId::parse_key(s) {
            Ok(m) => (m, None),
            Err(e) => {
                let mut w = String::from_str("config: ");
                w.append(e.as_str());
                w.append("; using ");
                w.append(ModelId::DEFAULT.key());
                (ModelId::DEFAULT, Some(w))
            },
        }
    }

    /// The model at `index` in menu order, if there is one.
    pub fn at(index: isize) -> (r: Option<ModelId>)
        ensures
            0 <= index < all_models().len() ==> r == Some(all_models()[index as int]),
            !(0 <= index < all_models().len()) ==> r is None,
    {
        let all = ModelId::all();
        if index >= 0 && (index as usize) < all.len() {
            Some(all[index as usize])
        } else {
            None
        }
    }
}

/// The keys of all models joined by ", ".
fn keys_text() -> (r: String)
    ensures
        r@ == keys_list(all_models()),
{
    let all = ModelId::all();
    let mut r = String::new();
    let mut i: usize = 0;
    while i < all.len()
        invariant
            all@ == all_models(),
            i <= all.len(),
            r@ == keys_list(all@.take(i as int)),
        decreases all.len() - i,
    {
        assert(all@.take(i + 1).drop_last() =~= all@.take(i as int));
        if i > 0 {
            r.append(", ");
        }
        r.append(all[i].key());
        i = i + 1;
    }
    assert(all@.take(all.len() as int) =~= all@);
    r
}

impl std::str::FromStr for ModelId {
    type Err = String;

    fn from_str(s: &str) -> (r: Result<ModelId, String>)
        ensures
            r matches Ok(m) ==> model_key(m) == s@ && all_models().contains(m),
            r matches Err(e) ==> e@ == unknown_model_message(s@)
                && forall|m: ModelId| #[trigger] all_models().contains(m) ==> model_key(m) != s@,
    {
        ModelId::parse_key(s)
    }
}

/// Keys name models one to one, and every model is in the menu list; so,
/// by the contract of `ModelId::parse_key`, each key parses back to its model.
pub proof fn law_keys_identify_models(a: ModelId, b: ModelId)
    ensures
        model_key(a) == model_key(b) ==> a == b,
        all_models().contains(a),
{
    reveal_strlit("parakeet-v2");
    assert(all_models()[0] == ModelId::ParakeetV2);
}

} // verus!
