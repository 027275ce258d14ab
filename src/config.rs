//! Pipeline configuration: a YAML document read into a tree, mapped onto the
//! typed schema with its defaults and closed value sets, then validated.
use vstd::prelude::*;

use crate::text::same_text;

verus! {

/// Failure while loading a configuration.
#[derive(Debug)]
pub enum Error {
    /// No candidate file in the directory.
    NotFound,
    /// The file could not be read.
    Io(String),
    /// The text is no YAML, or does not fit the schema.
    Parse(String),
    /// The configuration breaks a rule that the schema does not express.
    Invalid(String),
}

/// A YAML document, as a tree of plain values.
#[derive(Debug)]
pub enum Node {
    Null,
    Bool(bool),
    /// A number, with its value where it is a non-negative integer that fits
    /// in a `u64`.
    Number(Option<u64>),
    Str(String),
    List(Vec<Node>),
    /// Key and value pairs, in document order.
    Mapping(Vec<(Node, Node)>),
    /// A `!tag` and the value it marks.
    Tagged(String, Box<Node>),
}

#[derive(Debug, Clone, Copy, PartialEq, Eq)]
pub enum Language {
    Rust,
    Js,
}

#[derive(Debug, Clone, Copy, PartialEq, Eq)]
pub enum Gate {
    Build,
    Lint,
    Test,
}

#[derive(Debug, Clone, Copy, PartialEq, Eq)]
pub struct Timeouts {
    pub per_step_secs: Option<u64>,
    pub overall_secs: Option<u64>,
}

#[derive(Debug, Clone, PartialEq, Eq)]
pub struct Pipeline {
    pub languages: Vec<Language>,
    pub gates: Vec<Gate>,
    pub timeouts: Option<Timeouts>,
}

#[derive(Debug, Clone, PartialEq, Eq)]
pub struct Policies {
    pub docs_required: bool,
    pub protected_branches: Vec<String>,
}

#[derive(Debug, Clone, PartialEq, Eq)]
pub struct Intent {
    pub path: String,
}

#[derive(Debug, Clone, PartialEq, Eq)]
pub struct Config {
    pub version: String,
    pub pipeline: Pipeline,
    pub policies: Option<Policies>,
    pub intent: Intent,
}

pub ghost struct PipelineView {
    pub languages: Seq<Language>,
    pub gates: Seq<Gate>,
    pub timeouts: Option<Timeouts>,
}

pub ghost struct PoliciesView {
    pub docs_required: bool,
    pub protected_branches: Seq<Seq<char>>,
}

pub ghost struct ConfigView {
    pub version: Seq<char>,
    pub pipeline: PipelineView,
    pub policies: Option<PoliciesView>,
    pub intent_path: Seq<char>,
}

impl View for Pipeline {
    type V = PipelineView;

    open spec fn view(&self) -> PipelineView {
        PipelineView { languages: self.languages@, gates: self.gates@, timeouts: self.timeouts }
    }
}

impl View for Policies {
    type V = PoliciesView;

    open spec fn view(&self) -> PoliciesView {
        PoliciesView {
            docs_required: self.docs_required,
            protected_branches: self.protected_branches@.map_values(|s: String| s@),
        }
    }
}

impl View for Config {
    type V = ConfigView;

    open spec fn view(&self) -> ConfigView {
        ConfigView {
            version: self.version@,
            pipeline: self.pipeline@,
            policies: match self.policies {
                Some(p) => Some(p@),
                None => None,
            },
            intent_path: self.intent.path@,
        }
    }
}

// ---------------------------------------------------------------- schema

pub open spec fn default_version_spec() -> Seq<char> {
    "1"@
}

pub open spec fn default_intent_path_spec() -> Seq<char> {
    ".lunara/intent.json"@
}

/// The value under the first key `key` of a mapping.
pub open spec fn lookup(es: Seq<(Node, Node)>, key: Seq<char>) -> Option<Node>
    decreases es.len(),
{
    if es.len() == 0 {
        None
    } else if (match es[0].0 {
        Node::Str(k) => k@ == key,
        _ => false,
    }) {
        Some(es[0].1)
    } else {
        lookup(es.drop_first(), key)
    }
}

/// The value under `key` where `n` is a mapping: `Some(None)` where the key
/// is absent, `None` where `n` is no mapping.
pub open spec fn field(n: Node, key: Seq<char>) -> Option<Option<Node>> {
    match n {
        Node::Mapping(es) => Some(lookup(es@, key)),
        _ => None,
    }
}

/// A field that must be there.
pub open spec fn required<T>(v: Option<Node>, f: spec_fn(Node) -> Option<T>) -> Option<T> {
    match v {
        Some(n) => f(n),
        None => None,
    }
}

/// A field that takes `d` where it is absent.
pub open spec fn defaulted<T>(v: Option<Node>, f: spec_fn(Node) -> Option<T>, d: T) -> Option<T> {
    match v {
        Some(n) => f(n),
        None => Some(d),
    }
}

/// An optional field: absent or null gives `Some(None)`.
pub open spec fn optional<T>(v: Option<Node>, f: spec_fn(Node) -> Option<T>) -> Option<Option<T>> {
    match v {
        Some(Node::Null) => Some(None),
        Some(n) => match f(n) {
            Some(x) => Some(Some(x)),
            None => None,
        },
        None => Some(None),
    }
}

pub open spec fn str_of(n: Node) -> Option<Seq<char>> {
    match n {
        Node::Str(s) => Some(s@),
        _ => None,
    }
}

pub open spec fn bool_of(n: Node) -> Option<bool> {
    match n {
        Node::Bool(b) => Some(b),
        _ => None,
    }
}

pub open spec fn u64_of(n: Node) -> Option<u64> {
    match n {
        Node::Number(Some(x)) => Some(x),
        _ => None,
    }
}

/// The language a lowercase name stands for; no other spelling is accepted.
pub open spec fn language_of(n: Node) -> Option<Language> {
    match n {
        Node::Str(s) => if s@ == "rust"@ {
            Some(Language::Rust)
        } else if s@ == "js"@ {
            Some(Language::Js)
        } else {
            None
        },
        _ => None,
    }
}

/// Which gate a name denotes: `build`, `lint` or `test`, in lower case only.
pub open spec fn gate_of(n: Node) -> Option<Gate> {
    match n {
        Node::Str(s) => if s@ == "build"@ {
            Some(Gate::Build)
        } else if s@ == "lint"@ {
            Some(Gate::Lint)
        } else if s@ == "test"@ {
            Some(Gate::Test)
        } else {
            None
        },
        _ => None,
    }
}

pub open spec fn timeouts_of(n: Node) -> Option<Timeouts> {
    match (field(n, "per_step_secs"@), field(n, "overall_secs"@)) {
        (Some(p), Some(o)) => match (optional(p, |m| u64_of(m)), optional(o, |m| u64_of(m))) {
            (Some(ps), Some(os)) => Some(Timeouts { per_step_secs: ps, overall_secs: os }),
            _ => None,
        },
        _ => None,
    }
}

pub open spec fn pipeline_of(n: Node) -> Option<PipelineView> {
    match (field(n, "languages"@), field(n, "gates"@), field(n, "timeouts"@)) {
        (Some(l), Some(g), Some(t)) => match (
            required(l, |m| languages_of(m)),
            required(g, |m| gates_of(m)),
            optional(t, |m| timeouts_of(m)),
        ) {
            (Some(ls), Some(gs), Some(ts)) => Some(
                PipelineView { languages: ls, gates: gs, timeouts: ts },
            ),
            _ => None,
        },
        _ => None,
    }
}

pub open spec fn policies_of(n: Node) -> Option<PoliciesView> {
    match (field(n, "docs_required"@), field(n, "protected_branches"@)) {
        (Some(d), Some(b)) => match (
            defaulted(d, |m| bool_of(m), false),
            defaulted(b, |m| strings_of(m), Seq::<Seq<char>>::empty()),
        ) {
            (Some(ds), Some(bs)) => Some(PoliciesView { docs_required: ds, protected_branches: bs }),
            _ => None,
        },
        _ => None,
    }
}

/// The intent file's path.
pub open spec fn intent_of(n: Node) -> Option<Seq<char>> {
    match field(n, "path"@) {
        Some(p) => defaulted(p, |m| str_of(m), default_intent_path_spec()),
        None => None,
    }
}

/// The configuration that a document describes, or `None` where it does not
/// fit the schema: a mapping with a required `pipeline`, and `version`,
/// `policies` and `intent` that take their defaults where absent.
pub open spec fn config_of(n: Node) -> Option<ConfigView> {
    match (field(n, "version"@), field(n, "pipeline"@), field(n, "policies"@), field(n, "intent"@)) {
        (Some(v), Some(p), Some(po), Some(i)) => match (
            defaulted(v, |m| str_of(m), default_version_spec()),
            required(p, |m| pipeline_of(m)),
            optional(po, |m| policies_of(m)),
            defaulted(i, |m| intent_of(m), default_intent_path_spec()),
        ) {
            (Some(vs), Some(ps), Some(pos), Some(is)) => Some(
                ConfigView { version: vs, pipeline: ps, policies: pos, intent_path: is },
            ),
            _ => None,
        },
        _ => None,
    }
}

/// The value under the first key `key` of a mapping's entries.
fn lookup_exec<'a>(es: &'a Vec<(Node, Node)>, key: &str) -> (r: Option<&'a Node>)
    ensures
        r matches Some(m) ==> lookup(es@, key@) == Some(*m),
        r is None ==> lookup(es@, key@) is None,
{
    let mut i: usize = 0;
    assert(es@.skip(0) =~= es@);
    while i < es.len()
        invariant
            i <= es.len(),
            lookup(es@, key@) == lookup(es@.skip(i as int), key@),
        decreases es.len() - i,
    {
        assert(es@.skip(i as int).drop_first() =~= es@.skip(i + 1));
        assert(es@.skip(i as int)[0] == es@[i as int]);
        let hit = match &es[i].0 {
            Node::Str(k) => same_text(k.as_str(), key),
            _ => false,
        };
        if hit {
            return Some(&es[i].1);
        }
        i = i + 1;
    }
    None
}

/// The value under `key` where `n` is a mapping.
fn field_exec<'a>(n: &'a Node, key: &str) -> (r: Option<Option<&'a Node>>)
    ensures
        match field(*n, key@) {
            Some(Some(m)) => r matches Some(Some(x)) && *x == m,
            Some(None) => r matches Some(None),
            None => r is None,
        },
{
    match n {
        Node::Mapping(es) => Some(lookup_exec(es, key)),
        _ => None,
    }
}

/// A sequence of languages.
pub open spec fn languages_of(n: Node) -> Option<Seq<Language>> {
    match n {
        Node::List(items) => if forall|k: int| 0 <= k < items@.len() ==> #[trigger] language_of(items@[k]) is Some {
            Some(items@.map_values(|m: Node| language_of(m)->0))
        } else {
            None
        },
        _ => None,
    }
}

/// A sequence of gates.
pub open spec fn gates_of(n: Node) -> Option<Seq<Gate>> {
    match n {
        Node::List(items) => if forall|k: int| 0 <= k < items@.len() ==> #[trigger] gate_of(items@[k]) is Some {
            Some(items@.map_values(|m: Node| gate_of(m)->0))
        } else {
            None
        },
        _ => None,
    }
}

/// A sequence of strings.
pub open spec fn strings_of(n: Node) -> Option<Seq<Seq<char>>> {
    match n {
        Node::List(items) => if forall|k: int| 0 <= k < items@.len() ==> #[trigger] str_of(items@[k]) is Some {
            Some(items@.map_values(|m: Node| str_of(m)->0))
        } else {
            None
        },
        _ => None,
    }
}

pub open spec fn deref(v: Option<&Node>) -> Option<Node> {
    match v {
        Some(m) => Some(*m),
        None => None,
    }
}

fn language_exec(n: &Node) -> (r: Option<Language>)
    ensures
        r == language_of(*n),
{
    match n {
        Node::Str(s) => if same_text(s.as_str(), "rust") {
            Some(Language::Rust)
        } else if same_text(s.as_str(), "js") {
            Some(Language::Js)
        } else {
            None
        },
        _ => None,
    }
}

fn gate_exec(n: &Node) -> (r: Option<Gate>)
    ensures
        r == gate_of(*n),
{
    match n {
        Node::Str(s) => if same_text(s.as_str(), "build") {
            Some(Gate::Build)
        } else if same_text(s.as_str(), "lint") {
            Some(Gate::Lint)
        } else if same_text(s.as_str(), "test") {
            Some(Gate::Test)
        } else {
            None
        },
        _ => None,
    }
}

fn languages_exec(n: &Node) -> (r: Option<Vec<Language>>)
    ensures
        match languages_of(*n) {
            Some(v) => r matches Some(w) && w@ == v,
            None => r is None,
        },
{
    match n {
        Node::List(items) => {
            let mut out: Vec<Language> = Vec::new();
            let mut i: usize = 0;
            while i < items.len()
                invariant
                    *n == Node::List(*items),
                    i <= items.len(),
                    out@.len() == i,
                    forall|k: int| 0 <= k < i ==> language_of(items@[k]) == Some(out@[k]),
                decreases items.len() - i,
            {
                match language_exec(&items[i]) {
                    Some(l) => out.push(l),
                    None => {
                        assert(language_of(items@[i as int]) is None);
                        return None;
                    },
                }
                i = i + 1;
            }
            assert(out@ =~= items@.map_values(|m: Node| language_of(m)->0));
            Some(out)
        },
        _ => None,
    }
}

fn gates_exec(n: &Node) -> (r: Option<Vec<Gate>>)
    ensures
        match gates_of(*n) {
            Some(v) => r matches Some(w) && w@ == v,
            None => r is None,
        },
{
    match n {
        Node::List(items) => {
            let mut out: Vec<Gate> = Vec::new();
            let mut i: usize = 0;
            while i < items.len()
                invariant
                    *n == Node::List(*items),
                    i <= items.len(),
                    out@.len() == i,
                    forall|k: int| 0 <= k < i ==> gate_of(items@[k]) == Some(out@[k]),
                decreases items.len() - i,
            {
                match gate_exec(&items[i]) {
                    Some(g) => out.push(g),
                    None => {
                        assert(gate_of(items@[i as int]) is None);
                        return None;
                    },
                }
                i = i + 1;
            }
            assert(out@ =~= items@.map_values(|m: Node| gate_of(m)->0));
            Some(out)
        },
        _ => None,
    }
}

fn strings_exec(n: &Node) -> (r: Option<Vec<String>>)
    ensures
        match strings_of(*n) {
            Some(v) => r matches Some(w) && w@.map_values(|s: String| s@) == v,
            None => r is None,
        },
{
    match n {
        Node::List(items) => {
            let mut out: Vec<String> = Vec::new();
            let mut i: usize = 0;
            while i < items.len()
                invariant
                    *n == Node::List(*items),
                    i <= items.len(),
                    out@.len() == i,
                    forall|k: int| 0 <= k < i ==> str_of(items@[k]) == Some(out@[k]@),
                decreases items.len() - i,
            {
                match &items[i] {
                    Node::Str(s) => out.push(s.clone()),
                    _ => {
                        assert(str_of(items@[i as int]) is None);
                        return None;
                    },
                }
                i = i + 1;
            }
            assert(out@.map_values(|s: String| s@) =~= items@.map_values(
                |m: Node| str_of(m)->0,
            ));
            Some(out)
        },
        _ => None,
    }
}

fn optional_u64(v: Option<&Node>) -> (r: Option<Option<u64>>)
    ensures
        r == optional(deref(v), |m: Node| u64_of(m)),
{
    match v {
        None => Some(None),
        Some(Node::Null) => Some(None),
        Some(Node::Number(Some(x))) => Some(Some(*x)),
        Some(_) => None,
    }
}

fn timeouts_exec(n: &Node) -> (r: Option<Timeouts>)
    ensures
        r == timeouts_of(*n),
{
    let p = match field_exec(n, "per_step_secs") {
        Some(p) => p,
        None => return None,
    };
    let o = match field_exec(n, "overall_secs") {
        Some(o) => o,
        None => return None,
    };
    match (optional_u64(p), optional_u64(o)) {
        (Some(ps), Some(os)) => Some(Timeouts { per_step_secs: ps, overall_secs: os }),
        _ => None,
    }
}

fn pipeline_exec(n: &Node) -> (r: Option<Pipeline>)
    ensures
        match pipeline_of(*n) {
            Some(v) => r matches Some(p) && p@ == v,
            None => r is None,
        },
{
    let l = match field_exec(n, "languages") {
        Some(Some(l)) => l,
        _ => return None,
    };
    let g = match field_exec(n, "gates") {
        Some(Some(g)) => g,
        _ => return None,
    };
    let t = match field_exec(n, "timeouts") {
        Some(t) => t,
        None => return None,
    };
    let languages = match languages_exec(l) {
        Some(x) => x,
        None => return None,
    };
    let gates = match gates_exec(g) {
        Some(x) => x,
        None => return None,
    };
    let timeouts = match t {
        None => None,
        Some(Node::Null) => None,
        Some(m) => match timeouts_exec(m) {
            Some(x) => Some(x),
            None => return None,
        },
    };
    Some(Pipeline { languages, gates, timeouts })
}

fn policies_exec(n: &Node) -> (r: Option<Policies>)
    ensures
        match policies_of(*n) {
            Some(v) => r matches Some(p) && p@ == v,
            None => r is None,
        },
{
    let d = match field_exec(n, "docs_required") {
        Some(d) => d,
        None => return None,
    };
    let b = match field_exec(n, "protected_branches") {
        Some(b) => b,
        None => return None,
    };
    let docs_required = match d {
        None => false,
        Some(Node::Bool(x)) => *x,
        Some(_) => return None,
    };
    let protected_branches = match b {
        None => Vec::new(),
        Some(m) => match strings_exec(m) {
            Some(x) => x,
            None => return None,
        },
    };
    let r = Policies { docs_required, protected_branches };
    assert(r@.protected_branches =~= policies_of(*n)->0.protected_branches);
    Some(r)
}

/// The default schema version.
pub fn default_version() -> (r: String)
    ensures
        r@ == default_version_spec(),
{
    String::from_str("1")
}

/// The default path of the intent file.
pub fn default_intent_path() -> (r: String)
    ensures
        r@ == default_intent_path_spec(),
{
    String::from_str(".lunara/intent.json")
}

fn intent_exec(n: &Node) -> (r: Option<Intent>)
    ensures
        match intent_of(*n) {
            Some(v) => r matches Some(i) && i.path@ == v,
            None => r is None,
        },
{
    match field_exec(n, "path") {
        Some(None) => Some(Intent { path: default_intent_path() }),
        Some(Some(Node::Str(s))) => Some(Intent { path: s.clone() }),
        _ => None,
    }
}

impl Config {
    /// Maps a document onto the schema: fails with `Parse` exactly where the
    /// document does not fit it.
    pub fn from_document(doc: &Node) -> (r: Result<Config, Error>)
        ensures
            match config_of(*doc) {
                Some(v) => r matches Ok(c) && c@ == v,
                None => r matches Err(Error::Parse(_)),
            },
    {
        match Config::from_document_opt(doc) {
            Some(c) => Ok(c),
            None => Err(Error::Parse(String::from_str("configuration does not fit the schema"))),
        }
    }

    fn from_document_opt(doc: &Node) -> (r: Option<Config>)
        ensures
            match config_of(*doc) {
                Some(v) => r matches Some(c) && c@ == v,
                None => r is None,
            },
    {
        let v = match field_exec(doc, "version") {
            Some(v) => v,
            None => return None,
        };
        let p = match field_exec(doc, "pipeline") {
            Some(Some(p)) => p,
            _ => return None,
        };
        let po = match field_exec(doc, "policies") {
            Some(po) => po,
            None => return None,
        };
        let i = match field_exec(doc, "intent") {
            Some(i) => i,
            None => return None,
        };
        let version = match v {
            None => default_version(),
            Some(Node::Str(s)) => s.clone(),
            Some(_) => return None,
        };
        let pipeline = match pipeline_exec(p) {
            Some(x) => x,
            None => return None,
        };
        let policies = match po {
            None => None,
            Some(Node::Null) => None,
            Some(m) => match policies_exec(m) {
                Some(x) => Some(x),
                None => return None,
            },
        };
        let intent = match i {
            None => Intent { path: default_intent_path() },
            Some(m) => match intent_exec(m) {
                Some(x) => x,
                None => return None,
            },
        };
        Some(Config { version, pipeline, policies, intent })
    }
}

// ---------------------------------------------------------------- loading

/// Why a configuration that fits the schema is still refused: an empty
/// language or gate list, the languages checked first.
pub open spec fn validation_error(c: ConfigView) -> Option<Seq<char>> {
    if c.pipeline.languages.len() == 0 {
        Some("pipeline.languages must not be empty"@)
    } else if c.pipeline.gates.len() == 0 {
        Some("pipeline.gates must not be empty"@)
    } else {
        None
    }
}

impl Config {
    /// Checks the rules that the schema does not express; never changes the
    /// configuration.
    pub fn validate(&self) -> (r: Result<(), Error>)
        ensures
            match validation_error(self@) {
                Some(m) => r matches Err(Error::Invalid(s)) && s@ == m,
                None => r is Ok,
            },
    {
        if self.pipeline.languages.len() == 0 {
            return Err(Error::Invalid(String::from_str("pipeline.languages must not be empty")));
        }
        if self.pipeline.gates.len() == 0 {
            return Err(Error::Invalid(String::from_str("pipeline.gates must not be empty")));
        }
        Ok(())
    }
}

/// The document that serde_yaml reads from a text, where the text is YAML.
pub uninterp spec fn yaml_document(text: Seq<char>) -> Option<Node>;

#[verifier::external_type_specification]
#[verifier::external_body]
pub struct ExYamlValue(serde_yaml::Value);

/// Copies a serde_yaml value into a `Node`, variant for variant; numbers keep
/// what `serde_yaml::Number::as_u64` gives.
#[verifier::external_body]
fn node_of(v: &serde_yaml::Value) -> Node {
    match v {
        serde_yaml::Value::Null => Node::Null,
        serde_yaml::Value::Bool(b) => Node::Bool(*b),
        serde_yaml::Value::Number(x) => Node::Number(x.as_u64()),
        serde_yaml::Value::String(s) => Node::Str(s.clone()),
        serde_yaml::Value::Sequence(xs) => Node::List(xs.iter().map(node_of).collect()),
        serde_yaml::Value::Mapping(m) => Node::Mapping(
            m.iter().map(|(k, x)| (node_of(k), node_of(x))).collect(),
        ),
        serde_yaml::Value::Tagged(t) => Node::Tagged(t.tag.to_string(), Box::new(node_of(&t.value))),
    }
}

/// Relies on `serde_yaml::from_str::<serde_yaml::Value>`: it fails on text
/// that is no YAML, with a message, and otherwise gives the document, which
/// depends on the text alone.
#[verifier::external_body]
fn read_yaml(text: &str) -> (r: Result<Node, String>)
    ensures
        r is Ok <==> yaml_document(text@) is Some,
        r matches Ok(n) ==> yaml_document(text@) == Some(n),
{
    serde_yaml::from_str::<serde_yaml::Value>(text).map(|v| node_of(&v)).map_err(|e| e.to_string())
}

/// What loading a text gives: the configuration it describes where the text
/// is YAML, fits the schema and passes validation.
pub open spec fn load_outcome(doc: Option<Node>) -> Result<ConfigView, Option<Seq<char>>> {
    match doc {
        None => Err(None),
        Some(d) => match config_of(d) {
            None => Err(None),
            Some(v) => match validation_error(v) {
                Some(m) => Err(Some(m)),
                None => Ok(v),
            },
        },
    }
}

/// Parses and validates a configuration text: `Parse` where it is no YAML
/// or does not fit the schema, `Invalid` where it fails validation.
pub fn parse_str(yaml: &str) -> (r: Result<Config, Error>)
    ensures
        match load_outcome(yaml_document(yaml@)) {
            Ok(v) => r matches Ok(c) && c@ == v,
            Err(None) => r matches Err(Error::Parse(_)),
            Err(Some(m)) => r matches Err(Error::Invalid(s)) && s@ == m,
        },
{
    let doc = match read_yaml(yaml) {
        Ok(d) => d,
        Err(msg) => return Err(Error::Parse(msg)),
    };
    let cfg = match Config::from_document(&doc) {
        Ok(c) => c,
        Err(e) => return Err(e),
    };
    match cfg.validate() {
        Ok(()) => Ok(cfg),
        Err(e) => Err(e),
    }
}

/// The names under which a configuration file is looked for.
#[derive(Debug, Clone, Copy, PartialEq, Eq)]
pub enum ConfigFile {
    Yml,
    Yaml,
}

impl ConfigFile {
    pub fn file_name(&self) -> (r: &'static str)
        ensures
            r@ == match self {
                ConfigFile::Yml => "lunara.yml"@,
                ConfigFile::Yaml => "lunara.yaml"@,
            },
    {
        match self {
            ConfigFile::Yml => "lunara.yml",
            ConfigFile::Yaml => "lunara.yaml",
        }
    }
}

/// Picks the configuration file of a directory from which candidates exist
/// there: `lunara.yml` before `lunara.yaml`.
pub fn discover_path(yml_exists: bool, yaml_exists: bool) -> (r: Option<ConfigFile>)
    ensures
        yml_exists ==> r == Some(ConfigFile::Yml),
        !yml_exists && yaml_exists ==> r == Some(ConfigFile::Yaml),
        !yml_exists && !yaml_exists ==> r is None,
{
    if yml_exists {
        Some(ConfigFile::Yml)
    } else if yaml_exists {
        Some(ConfigFile::Yaml)
    } else {
        None
    }
}

// ---------------------------------------------------------------- writing

fn language_node(l: Language) -> (r: Node)
    ensures
        language_of(r) == Some(l),
{
    proof {
        reveal_strlit("rust");
        assert("rust"@.len() == 4);
        reveal_strlit("js");
        assert("js"@.len() == 2);
    }
    match l {
        Language::Rust => Node::Str(String::from_str("rust")),
        Language::Js => Node::Str(String::from_str("js")),
    }
}

fn gate_node(g: Gate) -> (r: Node)
    ensures
        gate_of(r) == Some(g),
{
    proof {
        reveal_strlit("build");
        assert("build"@.len() == 5);
        reveal_strlit("lint");
        assert("lint"@.len() == 4);
        reveal_strlit("test");
        assert("test"@.len() == 4);
        assert("lint"@[0] != "test"@[0]);
        assert("lint"@ != "test"@);
    }
    match g {
        Gate::Build => Node::Str(String::from_str("build")),
        Gate::Lint => Node::Str(String::from_str("lint")),
        Gate::Test => Node::Str(String::from_str("test")),
    }
}

fn number_node(x: Option<u64>) -> (r: Node)
    ensures
        optional(Some(r), |m: Node| u64_of(m)) == Some(x),
{
    match x {
        Some(n) => Node::Number(Some(n)),
        None => Node::Null,
    }
}

fn entry(key: &str, value: Node) -> (r: (Node, Node))
    ensures
        r.0 matches Node::Str(k) && k@ == key@,
        r.1 == value,
{
    (Node::Str(String::from_str(key)), value)
}

impl Pipeline {
    fn to_document(&self) -> (r: Node)
        ensures
            pipeline_of(r) == Some(self@),
    {
        let mut ls: Vec<Node> = Vec::new();
        for i in 0..self.languages.len()
            invariant
                ls@.len() == i,
                forall|k: int| 0 <= k < i ==> language_of(#[trigger] ls@[k]) == Some(
                    self.languages@[k],
                ),
        {
            ls.push(language_node(self.languages[i]));
        }
        let mut gs: Vec<Node> = Vec::new();
        for i in 0..self.gates.len()
            invariant
                gs@.len() == i,
                forall|k: int| 0 <= k < i ==> gate_of(#[trigger] gs@[k]) == Some(self.gates@[k]),
        {
            gs.push(gate_node(self.gates[i]));
        }
        let ls_node = Node::List(ls);
        let gs_node = Node::List(gs);
        assert(languages_of(ls_node)->0 =~= self.languages@);
        assert(gates_of(gs_node)->0 =~= self.gates@);
        let timeouts = match self.timeouts {
            Some(t) => {
                let a = entry("per_step_secs", number_node(t.per_step_secs));
                let b = entry("overall_secs", number_node(t.overall_secs));
                proof {
                    reveal_strlit("per_step_secs");
                    assert("per_step_secs"@.len() == 13);
                    reveal_strlit("overall_secs");
                reveal_with_fuel(lookup, 4);
                    assert("overall_secs"@.len() == 12);
                }
                let m = Node::Mapping(vec![a, b]);
                assert(field(m, "per_step_secs"@) == Some(Some(a.1)));
                assert(field(m, "overall_secs"@) == Some(Some(b.1)));
                m
            },
            None => Node::Null,
        };
        let a = entry("languages", ls_node);
        let b = entry("gates", gs_node);
        let c = entry("timeouts", timeouts);
        proof {
            reveal_strlit("languages");
            assert("languages"@.len() == 9);
            reveal_strlit("gates");
            assert("gates"@.len() == 5);
            reveal_strlit("timeouts");
                reveal_with_fuel(lookup, 4);
            assert("timeouts"@.len() == 8);
        }
        let r = Node::Mapping(vec![a, b, c]);
        assert(field(r, "languages"@) == Some(Some(a.1)));
        assert(field(r, "gates"@) == Some(Some(b.1)));
        assert(field(r, "timeouts"@) == Some(Some(c.1)));
        r
    }
}

impl Policies {
    fn to_document(&self) -> (r: Node)
        ensures
            policies_of(r) == Some(self@),
    {
        let mut bs: Vec<Node> = Vec::new();
        for i in 0..self.protected_branches.len()
            invariant
                bs@.len() == i,
                forall|k: int| 0 <= k < i ==> str_of(#[trigger] bs@[k]) == Some(
                    self.protected_branches@[k]@,
                ),
        {
            bs.push(Node::Str(self.protected_branches[i].clone()));
        }
        let bs_node = Node::List(bs);
        assert(strings_of(bs_node)->0 =~= self@.protected_branches);
        let a = entry("docs_required", Node::Bool(self.docs_required));
        let b = entry("protected_branches", bs_node);
        proof {
            reveal_strlit("docs_required");
            assert("docs_required"@.len() == 13);
            reveal_strlit("protected_branches");
                reveal_with_fuel(lookup, 4);
            assert("protected_branches"@.len() == 18);
        }
        let es = vec![a, b];
        let r = Node::Mapping(es);
        assert(field(r, "docs_required"@) == Some(Some(a.1)));
        assert(field(r, "protected_branches"@) == Some(Some(b.1)));
        r
    }
}

impl Config {
    /// Writes the configuration as a document, every field spelled out.
    /// Reading that document back gives this configuration again.
    pub fn to_document(&self) -> (r: Node)
        ensures
            config_of(r) == Some(self@),
    {
        let p = self.pipeline.to_document();
        let po = match &self.policies {
            Some(x) => x.to_document(),
            None => Node::Null,
        };
        let ip = entry("path", Node::Str(self.intent.path.clone()));
        proof {
            reveal_strlit("path");
            assert("path"@.len() == 4);
        }
        let i = Node::Mapping(vec![ip]);
        assert(field(i, "path"@) == Some(Some(ip.1)));
        let a = entry("version", Node::Str(self.version.clone()));
        let b = entry("pipeline", p);
        let c = entry("policies", po);
        let d = entry("intent", i);
        proof {
            reveal_strlit("version");
            assert("version"@.len() == 7);
            reveal_strlit("pipeline");
            assert("pipeline"@.len() == 8);
            reveal_strlit("policies");
            assert("policies"@.len() == 8);
            reveal_strlit("intent");
            assert("pipeline"@[1] != "policies"@[1]);
            reveal_with_fuel(lookup, 5);
            assert("intent"@.len() == 6);
        }
        let r = Node::Mapping(vec![a, b, c, d]);
        assert(field(r, "version"@) == Some(Some(a.1)));
        assert(field(r, "pipeline"@) == Some(Some(b.1)));
        assert(field(r, "policies"@) == Some(Some(c.1)));
        assert(field(r, "intent"@) == Some(Some(d.1)));
        r
    }
}

// ---------------------------------------------------------------- laws

/// A configuration that loads has a language and a gate. One that fits the
/// schema with no language is refused as invalid with the languages message,
/// and one with languages but no gate with the gates message.
pub proof fn lemma_loaded_config_has_languages_and_gates(doc: Node)
    ensures
        load_outcome(Some(doc)) matches Ok(v) ==> v.pipeline.languages.len() > 0
            && v.pipeline.gates.len() > 0,
        config_of(doc) matches Some(v) && v.pipeline.languages.len() == 0 ==> load_outcome(
            Some(doc),
        ) == Err::<ConfigView, Option<Seq<char>>>(Some("pipeline.languages must not be empty"@)),
        config_of(doc) matches Some(v) && v.pipeline.languages.len() > 0
            && v.pipeline.gates.len() == 0 ==> load_outcome(Some(doc)) == Err::<
            ConfigView,
            Option<Seq<char>>,
        >(Some("pipeline.gates must not be empty"@)),
{
}

/// A language outside `rust` and `js` makes the document unfit for the
/// schema: loading fails as a parse error, before any validation.
pub proof fn lemma_unknown_language_fails_parse(doc: Node, pipeline: Node, list: Node, k: int)
    requires
        field(doc, "pipeline"@) == Some(Some(pipeline)),
        field(pipeline, "languages"@) == Some(Some(list)),
        list matches Node::List(items) && 0 <= k < items@.len() && language_of(items@[k]) is None,
    ensures
        config_of(doc) is None,
        load_outcome(Some(doc)) == Err::<ConfigView, Option<Seq<char>>>(None),
{
    assert(languages_of(list) is None);
}

/// A gate outside `build`, `lint` and `test` makes the document unfit for the
/// schema: loading fails as a parse error, before any validation.
pub proof fn lemma_unknown_gate_fails_parse(doc: Node, pipeline: Node, list: Node, k: int)
    requires
        field(doc, "pipeline"@) == Some(Some(pipeline)),
        field(pipeline, "gates"@) == Some(Some(list)),
        list matches Node::List(items) && 0 <= k < items@.len() && gate_of(items@[k]) is None,
    ensures
        config_of(doc) is None,
        load_outcome(Some(doc)) == Err::<ConfigView, Option<Seq<char>>>(None),
{
    assert(gates_of(list) is None);
}

} // verus!
