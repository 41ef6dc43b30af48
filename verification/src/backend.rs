//! The plug-in surface that language backends implement.
//!
//! A parsed `match <lang>::<module> "..." { <action> }` block is lowered
//! into a backend-neutral [`RuleSpec`]; the backend registered for
//! `<lang>` turns it into a ready-to-run rule.

use vstd::prelude::*;
use crate::text::{str_eq, str_views, push_str};
use crate::suggest::{note_text, candidates_note};
use crate::error::{Error, Result};
use crate::rules::Rule;
use crate::operation::Operation;
use crate::backends::Backend;

verus! {

/// The lowered form of a `match` block: an action and its arguments.
#[derive(Debug, Clone)]
pub enum RuleSpec {
    /// Rewrite `target` with `replacement`.
    Replace { target: String, replacement: String },
    /// Remove the matched element.
    Delete { target: String },
    /// Idempotently add `target` if it is missing.
    Ensure { target: String },
    /// Rewrite calls of `target` with the `template`.
    ReplaceCall { target: String, template: String },
    /// Give the member `target` the value `value`.
    SetValue { target: String, value: String },
    /// Add the member `target` with `value` when it is absent.
    Insert { target: String, value: String },
}

/// One DSL action supported within a [`Capability`].
#[derive(Debug, Clone, Copy)]
pub struct ActionCapability {
    pub name: &'static str,
    pub description: &'static str,
}

/// One module a backend supports: the name after `<lang>::`, what it
/// does, and its actions.
#[derive(Debug)]
pub struct Capability {
    pub module: &'static str,
    pub description: &'static str,
    pub actions: Vec<ActionCapability>,
}

/// What a capability lists: the module name and the names of its actions.
pub open spec fn capability_view(c: Capability) -> (Seq<char>, Seq<Seq<char>>) {
    (c.module@, c.actions@.map_values(|a: ActionCapability| a.name@))
}

pub open spec fn capability_views(cs: Seq<Capability>) -> Seq<(Seq<char>, Seq<Seq<char>>)> {
    cs.map_values(|c: Capability| capability_view(c))
}

/// The descriptions of the capabilities, in order.
pub open spec fn descriptions_of(cs: Seq<Capability>) -> Seq<Seq<char>> {
    cs.map_values(|c: Capability| c.description@)
}

/// The descriptions of each capability's actions, in order.
pub open spec fn action_notes_of(cs: Seq<Capability>) -> Seq<Seq<Seq<char>>> {
    cs.map_values(|c: Capability| c.actions@.map_values(|a: ActionCapability| a.description@))
}

/// `caps` lists `module` with the action `action`.
pub open spec fn advertises(caps: Seq<(Seq<char>, Seq<Seq<char>>)>, module: Seq<char>, action: Seq<char>) -> bool {
    exists|k: int| 0 <= k < caps.len() && caps[k].0 == module && (#[trigger] caps[k]).1.contains(action)
}

/// Implemented by each language backend.
pub trait LanguageBackend {
    /// The DSL namespace the backend owns.
    spec fn lang_spec(&self) -> Seq<char>;

    /// The modules the backend offers and the actions of each.
    spec fn offered(&self) -> Seq<(Seq<char>, Seq<Seq<char>>)>;

    /// The description of each offered module, in the same order.
    spec fn described(&self) -> Seq<Seq<char>>;

    /// The description of each action of each offered module.
    spec fn action_notes(&self) -> Seq<Seq<Seq<char>>>;

    /// The sentence that describes the backend.
    spec fn summary(&self) -> Seq<char>;

    /// The rule a match block lowers to, or the message of the
    /// configuration error its arguments make; `None` when the backend
    /// does not implement the module/action pair.
    spec fn rule_for(&self, module: Seq<char>, spec: RuleSpec) -> Option<core::result::Result<Rule, Seq<char>>>;

    /// The DSL namespace this backend owns ("go", "java", ...).
    fn lang(&self) -> (r: &'static str)
        ensures
            r@ == self.lang_spec(),
    ;

    /// One short sentence describing the backend.
    fn description(&self) -> (r: &'static str)
        ensures
            r@ == self.summary(),
    ;

    /// Every module and action the backend supports.
    fn capabilities(&self) -> (r: Vec<Capability>)
        ensures
            capability_views(r@) == self.offered(),
            descriptions_of(r@) == self.described(),
            action_notes_of(r@) == self.action_notes(),
    ;

    /// Lower one match block into a rule; `UnsupportedOperation` for
    /// unknown modules or action/module combinations.
    fn build_rule(&self, module: &str, spec: RuleSpec) -> (r: Result<Rule>)
        ensures
            match self.rule_for(module@, spec) {
                Some(Ok(rule)) => r matches Ok(x) && x == rule,
                Some(Err(m)) => r matches Err(Error::Config(x)) && x@ == m,
                None => r matches Err(Error::UnsupportedOperation(m))
                    && m@ == unsupported_text(self.lang_spec(), module@, spec, self.offered()),
            },
    ;

    /// A backend builds exactly the module/action pairs it advertises.
    proof fn lemma_builds_what_it_offers(&self, module: Seq<char>, spec: RuleSpec)
        ensures
            self.rule_for(module, spec) is Some <==> advertises(self.offered(), module, action_word_spec(spec)),
    ;
}

/// Lookup table from language names to backends. The first backend
/// registered for a name wins.
pub struct BackendRegistry {
    backends: Vec<Backend>,
}

impl BackendRegistry {
    /// The language names of the registered backends, in registration order.
    pub open spec fn langs(&self) -> Seq<Seq<char>> {
        self.entries().map_values(|b: Backend| b.lang_spec())
    }

    /// The backends, in registration order.
    pub closed spec fn entries(&self) -> Seq<Backend> {
        self.backends@
    }

    /// An empty registry.
    pub fn new() -> (r: Self)
        ensures
            r.entries().len() == 0,
    {
        BackendRegistry { backends: Vec::new() }
    }

    /// Add a backend.
    pub fn register(&mut self, backend: Backend)
        ensures
            final(self).entries() == old(self).entries().push(backend),
    {
        self.backends.push(backend);
    }

    /// The backend that owns `lang`: the first registered one, or `None`.
    pub fn get(&self, lang: &str) -> (r: Option<&Backend>)
        ensures
            match first_with_lang(self.entries(), lang@) {
                Some(k) => r matches Some(b) && *b == self.entries()[k],
                None => r is None,
            },
    {
        let mut i: usize = 0;
        while i < self.backends.len()
            invariant
                i <= self.backends@.len(),
                first_with_lang(self.backends@, lang@) == first_with_lang_from(self.backends@, lang@, i as int),
            decreases self.backends@.len() - i,
        {
            if str_eq(self.backends[i].lang(), lang) {
                return Some(&self.backends[i]);
            }
            i = i + 1;
        }
        None
    }

    /// The backend that owns `lang`, or an `UnsupportedOperation` naming
    /// the registered languages (and the closest one).
    pub fn lookup(&self, lang: &str) -> (r: Result<&Backend>)
        ensures
            match first_with_lang(self.entries(), lang@) {
                Some(k) => r matches Ok(b) && *b == self.entries()[k],
                None => r matches Err(Error::UnsupportedOperation(m))
                    && m@ == unknown_language_text(lang@, self.langs()),
            },
    {
        match self.get(lang) {
            Some(b) => Ok(b),
            None => {
                let langs = self.languages();
                let mut m = crate::text::copy_str("unknown language `");
                push_str(&mut m, lang);
                push_str(&mut m, "`; ");
                push_str(&mut m, candidates_note(lang, "languages", langs.as_slice()).as_str());
                assert(str_views(langs@) =~= langs@.map_values(|s: &str| s@));
                Err(Error::UnsupportedOperation(m))
            },
        }
    }

    /// Languages currently registered, in registration order.
    pub fn languages(&self) -> (r: Vec<&'static str>)
        ensures
            r@.map_values(|s: &str| s@) == self.entries().map_values(|b: Backend| b.lang_spec()),
    {
        let mut out: Vec<&'static str> = Vec::new();
        let mut i: usize = 0;
        while i < self.backends.len()
            invariant
                i <= self.backends@.len(),
                out@.map_values(|s: &str| s@) == self.backends@.subrange(0, i as int).map_values(|b: Backend| b.lang_spec()),
            decreases self.backends@.len() - i,
        {
            let l = self.backends[i].lang();
            let ghost prev = out@;
            out.push(l);
            assert(out@.map_values(|s: &str| s@) =~= prev.map_values(|s: &str| s@).push(l@));
            assert(out@.map_values(|s: &str| s@) =~= self.backends@.subrange(0, i + 1).map_values(|b: Backend| b.lang_spec()));
            i = i + 1;
        }
        assert(self.backends@.subrange(0, i as int) =~= self.backends@);
        out
    }
}

/// The message for a language no backend owns.
pub open spec fn unknown_language_text(lang: Seq<char>, langs: Seq<Seq<char>>) -> Seq<char> {
    "unknown language `"@ + lang + "`; "@ + note_text(lang, "languages"@, langs)
}

/// The first backend at position `i` or later whose language is `lang`.
pub open spec fn first_with_lang_from(bs: Seq<Backend>, lang: Seq<char>, i: int) -> Option<int>
    decreases bs.len() - i,
{
    if i < 0 || i >= bs.len() {
        None
    } else if bs[i].lang_spec() == lang {
        Some(i)
    } else {
        first_with_lang_from(bs, lang, i + 1)
    }
}

pub open spec fn first_with_lang(bs: Seq<Backend>, lang: Seq<char>) -> Option<int> {
    first_with_lang_from(bs, lang, 0)
}

/// The position of the first capability for `module`, at `i` or later.
pub open spec fn module_index_from(caps: Seq<(Seq<char>, Seq<Seq<char>>)>, module: Seq<char>, i: int) -> Option<int>
    decreases caps.len() - i,
{
    if i < 0 || i >= caps.len() {
        None
    } else if caps[i].0 == module {
        Some(i)
    } else {
        module_index_from(caps, module, i + 1)
    }
}

/// The position of the first capability for `module`.
pub open spec fn module_index(caps: Seq<(Seq<char>, Seq<Seq<char>>)>, module: Seq<char>) -> Option<int> {
    module_index_from(caps, module, 0)
}

/// The module names a backend offers.
pub open spec fn module_names(caps: Seq<(Seq<char>, Seq<Seq<char>>)>) -> Seq<Seq<char>> {
    caps.map_values(|c: (Seq<char>, Seq<Seq<char>>)| c.0)
}

/// The message of an unsupported `<lang>::<module>` / action pair: an
/// unknown module is answered with the known modules, an unsupported
/// action with the actions the module has.
pub open spec fn unsupported_text(
    lang: Seq<char>,
    module: Seq<char>,
    spec: RuleSpec,
    caps: Seq<(Seq<char>, Seq<Seq<char>>)>,
) -> Seq<char> {
    match module_index(caps, module) {
        Some(k) => "`"@ + lang + "::"@ + module + "` does not support the `"@ + action_word_spec(spec)
            + "` action; "@ + note_text(action_word_spec(spec), "actions"@, caps[k].1),
        None => "unknown module `"@ + lang + "::"@ + module + "`; "@
            + note_text(module, "modules"@, module_names(caps)),
    }
}

proof fn lemma_module_index(caps: Seq<(Seq<char>, Seq<Seq<char>>)>, module: Seq<char>, i: int)
    requires
        0 <= i,
    ensures
        module_index_from(caps, module, i) matches Some(k) ==> i <= k < caps.len() && caps[k].0 == module
            && forall|j: int| i <= j < k ==> caps[j].0 != module,
        module_index_from(caps, module, i) is None ==> forall|j: int| i <= j < caps.len() ==> caps[j].0 != module,
    decreases caps.len() - i,
{
    if i < caps.len() {
        lemma_module_index(caps, module, i + 1);
    }
}

/// The `UnsupportedOperation` error a backend raises for `<lang>::<module>`.
pub fn unsupported(lang: &str, module: &str, spec: &RuleSpec, caps: &Vec<Capability>) -> (r: Error)
    ensures
        r matches Error::UnsupportedOperation(m)
            && m@ == unsupported_text(lang@, module@, *spec, capability_views(caps@)),
{
    let ghost cv = capability_views(caps@);
    proof { lemma_module_index(cv, module@, 0); }
    let mut names: Vec<&'static str> = Vec::new();
    let mut found: Option<usize> = None;
    let mut i: usize = 0;
    while i < caps.len()
        invariant
            cv == capability_views(caps@),
            i <= caps@.len(),
            str_views(names@) == module_names(cv.subrange(0, i as int)),
            match module_index(cv, module@) {
                Some(k) => if k < i { found == Some(k as usize) } else { found is None },
                None => found is None,
            },
            module_index(cv, module@) matches Some(k) ==> 0 <= k < cv.len() && cv[k].0 == module@
                && forall|j: int| 0 <= j < k ==> cv[j].0 != module@,
            module_index(cv, module@) is None ==> forall|j: int| 0 <= j < cv.len() ==> cv[j].0 != module@,
        decreases caps@.len() - i,
    {
        let m = caps[i].module;
        let ghost prev = names@;
        names.push(m);
        assert(str_views(names@) =~= str_views(prev).push(m@));
        assert(module_names(cv.subrange(0, i + 1)) =~= module_names(cv.subrange(0, i as int)).push(cv[i as int].0));
        if found.is_none() && str_eq(m, module) {
            found = Some(i);
        }
        i = i + 1;
    }
    assert(cv.subrange(0, i as int) =~= cv);
    let action = action_word(spec);
    let mut s = String::new();
    match found {
        Some(k) => {
            let mut actions: Vec<&'static str> = Vec::new();
            let acts = &caps[k].actions;
            let ghost av = acts@.map_values(|a: ActionCapability| a.name@);
            let mut j: usize = 0;
            while j < acts.len()
                invariant
                    av == acts@.map_values(|a: ActionCapability| a.name@),
                    j <= acts@.len(),
                    str_views(actions@) == av.subrange(0, j as int),
                decreases acts@.len() - j,
            {
                let a = acts[j].name;
                let ghost prev = actions@;
                actions.push(a);
                assert(str_views(actions@) =~= str_views(prev).push(a@));
                assert(av.subrange(0, j + 1) =~= av.subrange(0, j as int).push(av[j as int]));
                j = j + 1;
            }
            assert(av.subrange(0, j as int) =~= av);
            push_str(&mut s, "`");
            push_str(&mut s, lang);
            push_str(&mut s, "::");
            push_str(&mut s, module);
            push_str(&mut s, "` does not support the `");
            push_str(&mut s, action);
            push_str(&mut s, "` action; ");
            push_str(&mut s, candidates_note(action, "actions", actions.as_slice()).as_str());
        },
        None => {
            push_str(&mut s, "unknown module `");
            push_str(&mut s, lang);
            push_str(&mut s, "::");
            push_str(&mut s, module);
            push_str(&mut s, "`; ");
            push_str(&mut s, candidates_note(module, "modules", names.as_slice()).as_str());
        },
    }
    Error::UnsupportedOperation(s)
}

pub open spec fn action_word_spec(spec: RuleSpec) -> Seq<char> {
    match spec {
        RuleSpec::Replace { .. } => "replace"@,
        RuleSpec::Delete { .. } => "delete"@,
        RuleSpec::Ensure { .. } => "ensure"@,
        RuleSpec::ReplaceCall { .. } => "replace_call"@,
        RuleSpec::SetValue { .. } => "set"@,
        RuleSpec::Insert { .. } => "insert"@,
    }
}

/// The DSL word of an action.
pub fn action_word(spec: &RuleSpec) -> (r: &'static str)
    ensures
        r@ == action_word_spec(*spec),
{
    match spec {
        RuleSpec::Replace { .. } => "replace",
        RuleSpec::Delete { .. } => "delete",
        RuleSpec::Ensure { .. } => "ensure",
        RuleSpec::ReplaceCall { .. } => "replace_call",
        RuleSpec::SetValue { .. } => "set",
        RuleSpec::Insert { .. } => "insert",
    }
}

} // verus!
