//! The layered configuration container.
//!
//! A container owns a required `default` layer, optional `userset` and
//! `runtime` layers (each a mapping), and the derived `settings`: the merge
//! of all present layers, `default` first, then `userset`, then `runtime`.
//! The settings are recomputed inside every mutating operation; a failed
//! operation leaves the container untouched.

use crate::error::EkkeCfgError;
use crate::merge::{find_key, lemma_merge_absorb, lemma_merge_self, spec_find_key, unique_keys, Merge, MergeOut};
use crate::value::{lemma_obj_view_from, obj_view_from, TreeV, Value};
use vstd::prelude::*;

verus! {

/// The mathematical model of a [`Config`]: each layer as a model tree, the
/// path metadata as character sequences.
#[verifier::ext_equal]
pub struct ConfigV {
    pub settings: TreeV,
    pub usr_path: Option<Seq<char>>,
    pub def_path: Option<Seq<char>>,
    pub default: TreeV,
    pub userset: Option<TreeV>,
    pub runtime: Option<TreeV>,
}

/// A configuration container made of layers of parsed documents. Later
/// layers merge into the earlier data and override options that are already
/// set; objects merge recursively, arrays append the elements not already
/// present, and a value can never be unset once a default exists.
#[derive(Debug)]
pub struct Config {
    settings: Value,
    usr_path: Option<String>,
    def_path: Option<String>,
    default: Value,
    userset: Option<Value>,
    runtime: Option<Value>,
}

impl View for Config {
    type V = ConfigV;

    closed spec fn view(&self) -> ConfigV {
        ConfigV {
            settings: self.settings@,
            usr_path: match self.usr_path {
                Some(p) => Some(p@),
                None => None,
            },
            def_path: match self.def_path {
                Some(p) => Some(p@),
                None => None,
            },
            default: self.default@,
            userset: match self.userset {
                Some(u) => Some(u@),
                None => None,
            },
            runtime: match self.runtime {
                Some(r) => Some(r@),
                None => None,
            },
        }
    }
}

/// The derived settings: the default layer, with the userset layer merged in
/// if present, then the runtime layer if present. A failure anywhere is the
/// failure of the whole recomputation.
pub open spec fn spec_regen(d: TreeV, us: Option<TreeV>, rt: Option<TreeV>) -> MergeOut {
    let first = match us {
        None => MergeOut::Done(d),
        Some(u) => spec_merge(d, u),
    };
    match first {
        MergeOut::Done(v1) => match rt {
            None => MergeOut::Done(v1),
            Some(t) => spec_merge(v1, t),
        },
        MergeOut::Fail { post, existing, incoming } => MergeOut::Fail { post, existing, incoming },
    }
}

use crate::merge::spec_merge;

/// A well-formed container: every layer is a mapping and the settings are
/// exactly the successful merge of all present layers in order.
pub open spec fn config_wf(c: ConfigV) -> bool {
    &&& c.default is Obj
    &&& (c.userset matches Some(u) ==> u is Obj)
    &&& (c.runtime matches Some(r) ==> r is Obj)
    &&& spec_regen(c.default, c.userset, c.runtime) == MergeOut::Done(c.settings)
}

/// What merging an input document into an optional layer produces: the
/// accumulated layer (the input itself when no layer existed yet), a clash,
/// or a complaint that the input is not a mapping.
pub enum LayerOut {
    Done(ConfigV),
    Clash { existing: TreeV, incoming: TreeV },
    NotMapping,
}

/// The userset operation on the model: the input must be a mapping; it
/// becomes the userset layer or merges into the existing one, and the
/// settings are recomputed. Any clash aborts the whole operation.
pub open spec fn spec_merge_userset(c: ConfigV, input: TreeV) -> LayerOut {
    if !(input is Obj) {
        LayerOut::NotMapping
    } else {
        let layered = match c.userset {
            None => MergeOut::Done(input),
            Some(l) => spec_merge(l, input),
        };
        match layered {
            MergeOut::Done(u2) => match spec_regen(c.default, Some(u2), c.runtime) {
                MergeOut::Done(s2) => LayerOut::Done(
                    ConfigV { userset: Some(u2), settings: s2, ..c },
                ),
                MergeOut::Fail { existing, incoming, .. } => LayerOut::Clash { existing, incoming },
            },
            MergeOut::Fail { existing, incoming, .. } => LayerOut::Clash { existing, incoming },
        }
    }
}

/// The runtime operation on the model, the exact analogue of
/// [`spec_merge_userset`] on the runtime layer.
pub open spec fn spec_merge_runtime(c: ConfigV, input: TreeV) -> LayerOut {
    if !(input is Obj) {
        LayerOut::NotMapping
    } else {
        let layered = match c.runtime {
            None => MergeOut::Done(input),
            Some(l) => spec_merge(l, input),
        };
        match layered {
            MergeOut::Done(r2) => match spec_regen(c.default, c.userset, Some(r2)) {
                MergeOut::Done(s2) => LayerOut::Done(
                    ConfigV { runtime: Some(r2), settings: s2, ..c },
                ),
                MergeOut::Fail { existing, incoming, .. } => LayerOut::Clash { existing, incoming },
            },
            MergeOut::Fail { existing, incoming, .. } => LayerOut::Clash { existing, incoming },
        }
    }
}

/// What ingesting a root document yields: the default layer and the optional
/// userset file path, or nothing when the document is malformed.
pub open spec fn spec_from_document(r: TreeV) -> Option<(TreeV, Option<Seq<char>>)> {
    if !(r is Obj) {
        None
    } else {
        let es = r->Obj_0;
        match spec_find_key(es, "userset"@) {
            Some(j) => match es[j].1 {
                TreeV::Str(p) => spec_document_default(es, Some(p)),
                _ => None,
            },
            None => spec_document_default(es, None),
        }
    }
}

/// The `default` entry of a root document: present and itself a mapping, or
/// the document is malformed.
pub open spec fn spec_document_default(
    es: Seq<(Seq<char>, TreeV)>,
    up: Option<Seq<char>>,
) -> Option<(TreeV, Option<Seq<char>>)> {
    match spec_find_key(es, "default"@) {
        Some(j) => if es[j].1 is Obj {
            Some((es[j].1, up))
        } else {
            None
        },
        None => None,
    }
}

impl Clone for Config {
    /// A deep copy of the whole container: every layer, the derived
    /// settings, and the path metadata.
    fn clone(&self) -> (r: Config)
        ensures
            r@ == self@,
    {
        Config {
            settings: self.settings.deep_clone(),
            usr_path: match &self.usr_path {
                Some(p) => Some(p.clone()),
                None => None,
            },
            def_path: match &self.def_path {
                Some(p) => Some(p.clone()),
                None => None,
            },
            default: self.default.deep_clone(),
            userset: match &self.userset {
                Some(u) => Some(u.deep_clone()),
                None => None,
            },
            runtime: match &self.runtime {
                Some(r) => Some(r.deep_clone()),
                None => None,
            },
        }
    }
}

impl Config {
    /// Build a container from a parsed root document. The document must be a
    /// mapping with a `default` entry that is itself a mapping (it becomes
    /// the default layer and the initial settings); an optional `userset`
    /// entry must be a string and is recorded as the user file path, for the
    /// caller to read and merge. Anything else is a parse failure.
    pub fn from_document(root: Value) -> (r: Result<Config, EkkeCfgError>)
        ensures
            match spec_from_document(root@) {
                Some(du) => match r {
                    Ok(c) => {
                        &&& c@.default == du.0
                        &&& c@.settings == du.0
                        &&& c@.usr_path == du.1
                        &&& c@.def_path is None
                        &&& c@.userset is None
                        &&& c@.runtime is None
                        &&& config_wf(c@)
                    },
                    Err(_) => false,
                },
                None => r matches Err(EkkeCfgError::ConfigParse),
            },
    {
        let es: &Vec<(String, Value)> = match &root {
            Value::Obj(es) => es,
            _ => {
                return Err(EkkeCfgError::ConfigParse);
            },
        };
        proof {
            lemma_obj_view_from(es@, 0);
        }
        let usr_key = String::from_str("userset");
        let mut usr_path: Option<String> = None;
        match find_key(es, &usr_key) {
            Some(j) => {
                match &es[j].1 {
                    Value::Str(p) => {
                        usr_path = Some(p.clone());
                    },
                    _ => {
                        return Err(EkkeCfgError::ConfigParse);
                    },
                }
            },
            None => {},
        }
        let def_key = String::from_str("default");
        let default = match find_key(es, &def_key) {
            Some(j) => {
                match &es[j].1 {
                    Value::Obj(_) => es[j].1.deep_clone(),
                    _ => {
                        return Err(EkkeCfgError::ConfigParse);
                    },
                }
            },
            None => {
                return Err(EkkeCfgError::ConfigParse);
            },
        };
        let settings = default.deep_clone();
        Ok(Config { settings, usr_path, def_path: None, default, userset: None, runtime: None })
    }

    /// Merge userset settings into this container: install the mapping as
    /// the userset layer, or merge it into the existing one, then recompute
    /// the settings. A non-mapping input or any clash leaves the container
    /// unchanged and reports why.
    pub fn merge_userset(&mut self, input: Value) -> (r: Result<(), EkkeCfgError>)
        ensures
            match spec_merge_userset(old(self)@, input@) {
                LayerOut::Done(c2) => r is Ok && final(self)@ == c2,
                LayerOut::Clash { existing, incoming } => final(self)@ == old(self)@ && match r {
                    Err(EkkeCfgError::MergeWrongType(x, y)) => x@ == existing && y@ == incoming,
                    _ => false,
                },
                LayerOut::NotMapping => final(self)@ == old(self)@ && r matches Err(
                    EkkeCfgError::ConfigParse,
                ),
            },
    {
        match &input {
            Value::Obj(_) => {},
            _ => {
                return Err(EkkeCfgError::ConfigParse);
            },
        }
        let new_layer = match &self.userset {
            None => input,
            Some(l) => {
                let mut scratch = l.deep_clone();
                match scratch.merge(input) {
                    Ok(()) => scratch,
                    Err(e) => {
                        return Err(e);
                    },
                }
            },
        };
        let mut s = self.default.deep_clone();
        match s.merge(new_layer.deep_clone()) {
            Ok(()) => {},
            Err(e) => {
                return Err(e);
            },
        }
        match &self.runtime {
            Some(rt) => {
                match s.merge(rt.deep_clone()) {
                    Ok(()) => {},
                    Err(e) => {
                        return Err(e);
                    },
                }
            },
            None => {},
        }
        self.userset = Some(new_layer);
        self.settings = s;
        Ok(())
    }

    /// Add runtime configuration to this container: install the mapping as
    /// the runtime layer, or merge it into the existing one, then recompute
    /// the settings. A non-mapping input or any clash leaves the container
    /// unchanged and reports why.
    pub fn merge_runtime(&mut self, input: Value) -> (r: Result<(), EkkeCfgError>)
        ensures
            match spec_merge_runtime(old(self)@, input@) {
                LayerOut::Done(c2) => r is Ok && final(self)@ == c2,
                LayerOut::Clash { existing, incoming } => final(self)@ == old(self)@ && match r {
                    Err(EkkeCfgError::MergeWrongType(x, y)) => x@ == existing && y@ == incoming,
                    _ => false,
                },
                LayerOut::NotMapping => final(self)@ == old(self)@ && r matches Err(
                    EkkeCfgError::ConfigParse,
                ),
            },
    {
        match &input {
            Value::Obj(_) => {},
            _ => {
                return Err(EkkeCfgError::ConfigParse);
            },
        }
        let new_layer = match &self.runtime {
            None => input,
            Some(l) => {
                let mut scratch = l.deep_clone();
                match scratch.merge(input) {
                    Ok(()) => scratch,
                    Err(e) => {
                        return Err(e);
                    },
                }
            },
        };
        let mut s = self.default.deep_clone();
        match &self.userset {
            Some(us) => {
                match s.merge(us.deep_clone()) {
                    Ok(()) => {},
                    Err(e) => {
                        return Err(e);
                    },
                }
            },
            None => {},
        }
        match s.merge(new_layer.deep_clone()) {
            Ok(()) => {},
            Err(e) => {
                return Err(e);
            },
        }
        self.runtime = Some(new_layer);
        self.settings = s;
        Ok(())
    }

    /// The current derived settings: defaults with userset and runtime
    /// merged in.
    pub fn get(&self) -> (r: &Value)
        ensures
            r@ == self@.settings,
    {
        &self.settings
    }

    /// A copy of the default layer.
    pub fn default(&self) -> (r: Value)
        ensures
            r@ == self@.default,
    {
        self.default.deep_clone()
    }

    /// A copy of the userset layer, once one exists.
    pub fn userset(&self) -> (r: Option<Value>)
        ensures
            match r {
                Some(v) => self@.userset == Some(v@),
                None => self@.userset is None,
            },
    {
        match &self.userset {
            Some(v) => Some(v.deep_clone()),
            None => None,
        }
    }

    /// A copy of the runtime layer, once one exists.
    pub fn runtime(&self) -> (r: Option<Value>)
        ensures
            match r {
                Some(v) => self@.runtime == Some(v@),
                None => self@.runtime is None,
            },
    {
        match &self.runtime {
            Some(v) => Some(v.deep_clone()),
            None => None,
        }
    }

    /// The recorded path of the default configuration file.
    pub fn def_path(&self) -> (r: &Option<String>)
        ensures
            match r {
                Some(p) => self@.def_path == Some(p@),
                None => self@.def_path is None,
            },
    {
        &self.def_path
    }

    /// The recorded path of the user configuration file.
    pub fn usr_path(&self) -> (r: &Option<String>)
        ensures
            match r {
                Some(p) => self@.usr_path == Some(p@),
                None => self@.usr_path is None,
            },
    {
        &self.usr_path
    }

    /// Record where the defaults came from. Pure metadata: nothing is read
    /// or reparsed.
    pub fn set_def_path(&mut self, path: Option<String>)
        ensures
            final(self)@ == (ConfigV {
                def_path: match path {
                    Some(p) => Some(p@),
                    None => None,
                },
                ..old(self)@
            }),
    {
        self.def_path = path;
    }

    /// Record where the user configuration came from. Pure metadata: nothing
    /// is read or reparsed.
    pub fn set_usr_path(&mut self, path: Option<String>)
        ensures
            final(self)@ == (ConfigV {
                usr_path: match path {
                    Some(p) => Some(p@),
                    None => None,
                },
                ..old(self)@
            }),
    {
        self.usr_path = path;
    }
}

/// Layered regeneration idempotence: merging the same userset document a
/// second time yields the very container that merging it once yields, for a
/// document whose mappings never repeat a key (as parsed documents never do).
pub proof fn lemma_merge_userset_idempotent(c: ConfigV, x: TreeV)
    requires
        unique_keys(x),
        spec_merge_userset(c, x) is Done,
    ensures
        spec_merge_userset(spec_merge_userset(c, x)->Done_0, x) == spec_merge_userset(c, x),
{
    let c2 = spec_merge_userset(c, x)->Done_0;
    match c.userset {
        None => {
            lemma_merge_self(x);
        },
        Some(l) => {
            lemma_merge_absorb(l, x);
        },
    }
    assert(spec_merge_userset(c2, x)->Done_0 =~= c2);
}

/// The same idempotence for the runtime layer.
pub proof fn lemma_merge_runtime_idempotent(c: ConfigV, x: TreeV)
    requires
        unique_keys(x),
        spec_merge_runtime(c, x) is Done,
    ensures
        spec_merge_runtime(spec_merge_runtime(c, x)->Done_0, x) == spec_merge_runtime(c, x),
{
    let c2 = spec_merge_runtime(c, x)->Done_0;
    match c.runtime {
        None => {
            lemma_merge_self(x);
        },
        Some(l) => {
            lemma_merge_absorb(l, x);
        },
    }
    assert(spec_merge_runtime(c2, x)->Done_0 =~= c2);
}

} // verus!
