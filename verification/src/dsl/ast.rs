//! The syntax tree of a codemod script.
//!
//! These types mirror the script language one to one and carry no
//! behaviour; [`crate::dsl::compiler`] lowers them into rules.

use vstd::prelude::*;

verus! {

/// A complete script: `refactor "<name>" { <item>* }`.
#[derive(PartialEq, Debug)]
pub struct Command {
    pub refactor_name: String,
    pub items: Vec<Item>,
}

/// One entry of a script body, in source order.
#[derive(PartialEq, Debug)]
pub enum Item {
    /// `match <namespace> "<target>" [in "<glob>"] { <action> }`.
    Match(Match),
    /// `include "<path>"`: the matches of another script, spliced in.
    Include(String),
}

/// One `match <namespace> "<target>" { <action> }` block. Blocks apply
/// in source order.
#[derive(PartialEq, Debug)]
pub struct Match {
    pub namespace: Namespace,
    pub match_string: String,
    /// The glob of an `in "<glob>"` clause, restricting the rule to the
    /// paths it matches.
    pub scope: Option<String>,
    pub action: Action,
}

/// A target namespace such as `go::import`.
#[derive(PartialEq, Debug)]
pub struct Namespace {
    pub lang: String,
    pub module: String,
}

/// The action performed when a match succeeds.
#[derive(PartialEq, Debug)]
pub enum Action {
    /// Replace the matched value with the supplied string.
    Replace(String),
    /// Remove the matched element entirely.
    Delete,
    /// Idempotently add the matched element if it is missing.
    Ensure,
    /// Rewrite a matched call with a template; `$1`, `$2`, … are the
    /// call's arguments, `$args` all of them, `$func` the matched name and
    /// `$$` a literal `$`.
    ReplaceCall(String),
    /// Give the matched member this value.
    SetValue(String),
    /// Add the matched member with this value when it is absent.
    Insert(String),
}

/// The mathematical form of an [`Action`].
pub enum ActionView {
    Replace(Seq<char>),
    Delete,
    Ensure,
    ReplaceCall(Seq<char>),
    SetValue(Seq<char>),
    Insert(Seq<char>),
}

/// The mathematical form of a [`Match`].
pub struct MatchView {
    pub lang: Seq<char>,
    pub module: Seq<char>,
    pub target: Seq<char>,
    pub scope: Option<Seq<char>>,
    pub action: ActionView,
}

/// The mathematical form of an [`Item`].
pub enum ItemView {
    Match(MatchView),
    Include(Seq<char>),
}

/// The mathematical form of a [`Command`].
pub struct CommandView {
    pub name: Seq<char>,
    pub items: Seq<ItemView>,
}

impl View for Action {
    type V = ActionView;

    open spec fn view(&self) -> ActionView {
        match self {
            Action::Replace(s) => ActionView::Replace(s@),
            Action::Delete => ActionView::Delete,
            Action::Ensure => ActionView::Ensure,
            Action::ReplaceCall(s) => ActionView::ReplaceCall(s@),
            Action::SetValue(s) => ActionView::SetValue(s@),
            Action::Insert(s) => ActionView::Insert(s@),
        }
    }
}

pub open spec fn opt_view(o: Option<String>) -> Option<Seq<char>> {
    match o {
        Some(s) => Some(s@),
        None => None,
    }
}

impl View for Match {
    type V = MatchView;

    open spec fn view(&self) -> MatchView {
        MatchView {
            lang: self.namespace.lang@,
            module: self.namespace.module@,
            target: self.match_string@,
            scope: opt_view(self.scope),
            action: self.action@,
        }
    }
}

impl View for Item {
    type V = ItemView;

    open spec fn view(&self) -> ItemView {
        match self {
            Item::Match(m) => ItemView::Match(m@),
            Item::Include(p) => ItemView::Include(p@),
        }
    }
}

pub open spec fn item_views(items: Seq<Item>) -> Seq<ItemView> {
    items.map_values(|i: Item| i@)
}

impl View for Command {
    type V = CommandView;

    open spec fn view(&self) -> CommandView {
        CommandView { name: self.refactor_name@, items: item_views(self.items@) }
    }
}

} // verus!
