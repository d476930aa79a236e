use vstd::prelude::*;

use crate::html::{hn_html_to_plain, html_to_plain_spec};
use crate::text::{chars_of, is_blank_spec, is_blank_text};

verus! {

/// Raw decoded record of the remote API.
#[derive(Debug, Clone)]
pub struct HnItem {
    pub id: u64,
    pub kind: Option<String>,
    pub by: Option<String>,
    pub time: Option<i64>,
    pub title: Option<String>,
    pub url: Option<String>,
    pub text: Option<String>,
    pub score: Option<i64>,
    pub descendants: Option<i64>,
    pub kids: Option<Vec<u64>>,
    pub dead: Option<bool>,
    pub deleted: Option<bool>,
}

pub open spec fn opt_str_view(s: Option<String>) -> Option<Seq<char>> {
    match s {
        Some(v) => Some(v@),
        None => None,
    }
}

pub open spec fn opt_kids_view(k: Option<Vec<u64>>) -> Seq<u64> {
    match k {
        Some(v) => v@,
        None => Seq::empty(),
    }
}

/// Validated projection of an item of kind "story".
#[derive(Debug, Clone)]
pub struct Story {
    pub id: u64,
    pub title: String,
    pub url: Option<String>,
    pub score: i64,
    pub by: String,
    pub time: i64,
    pub comment_count: i64,
    pub kids: Vec<u64>,
}

/// Mathematical value of a story: strings and lists as sequences.
pub struct StoryView {
    pub id: u64,
    pub title: Seq<char>,
    pub url: Option<Seq<char>>,
    pub score: i64,
    pub by: Seq<char>,
    pub time: i64,
    pub comment_count: i64,
    pub kids: Seq<u64>,
}

impl View for Story {
    type V = StoryView;

    open spec fn view(&self) -> StoryView {
        StoryView {
            id: self.id,
            title: self.title@,
            url: opt_str_view(self.url),
            score: self.score,
            by: self.by@,
            time: self.time,
            comment_count: self.comment_count,
            kids: self.kids@,
        }
    }
}

/// A field that a story must carry.
#[derive(Debug, Clone, Copy, PartialEq, Eq)]
pub enum StoryField {
    Title,
    Score,
    By,
    Time,
}

/// Semantic errors of item projection and lookup.
#[derive(Debug, Clone, PartialEq, Eq)]
pub enum ItemError {
    /// The API answered `null` for the id.
    NotFound { id: u64 },
    /// A story was requested but the item has another kind.
    WrongKind { id: u64 },
    /// A story lacks a field it must have.
    MissingField { id: u64, field: StoryField },
}

pub open spec fn is_story_kind_spec(kind: Option<String>) -> bool {
    match kind {
        Some(k) => k@ == "story"@,
        None => false,
    }
}

/// What projecting an item into a story yields; fields are checked in the
/// order title, score, by, time.
pub open spec fn story_result(item: HnItem) -> Result<StoryView, ItemError> {
    if !is_story_kind_spec(item.kind) {
        Err(ItemError::WrongKind { id: item.id })
    } else if item.title is None {
        Err(ItemError::MissingField { id: item.id, field: StoryField::Title })
    } else if item.score is None {
        Err(ItemError::MissingField { id: item.id, field: StoryField::Score })
    } else if item.by is None {
        Err(ItemError::MissingField { id: item.id, field: StoryField::By })
    } else if item.time is None {
        Err(ItemError::MissingField { id: item.id, field: StoryField::Time })
    } else {
        Ok(
            StoryView {
                id: item.id,
                title: item.title.unwrap()@,
                url: opt_str_view(item.url),
                score: item.score.unwrap(),
                by: item.by.unwrap()@,
                time: item.time.unwrap(),
                comment_count: match item.descendants {
                    Some(d) => d,
                    None => 0,
                },
                kids: opt_kids_view(item.kids),
            },
        )
    }
}

pub open spec fn story_result_view(r: Result<Story, ItemError>) -> Result<StoryView, ItemError> {
    match r {
        Ok(s) => Ok(s@),
        Err(e) => Err(e),
    }
}

fn take_kids(kids: Option<Vec<u64>>) -> (r: Vec<u64>)
    ensures
        r@ == opt_kids_view(kids),
{
    match kids {
        Some(v) => v,
        None => Vec::new(),
    }
}

fn is_story_kind(kind: &Option<String>) -> (r: bool)
    ensures
        r == is_story_kind_spec(*kind),
{
    match kind {
        Some(k) => {
            let expected = String::from_str("story");
            proof {
                reveal_strlit("story");
            }
            *k == expected
        },
        None => false,
    }
}

impl Story {
    /// Projects a raw item into a story; fails when the kind is not "story"
    /// or a required field is absent.
    pub fn try_from_item(item: HnItem) -> (r: Result<Story, ItemError>)
        ensures
            story_result_view(r) == story_result(item),
    {
        if !is_story_kind(&item.kind) {
            return Err(ItemError::WrongKind { id: item.id });
        }
        let id = item.id;
        let title = match item.title {
            Some(t) => t,
            None => {
                return Err(ItemError::MissingField { id, field: StoryField::Title });
            },
        };
        let score = match item.score {
            Some(s) => s,
            None => {
                return Err(ItemError::MissingField { id, field: StoryField::Score });
            },
        };
        let by = match item.by {
            Some(b) => b,
            None => {
                return Err(ItemError::MissingField { id, field: StoryField::By });
            },
        };
        let time = match item.time {
            Some(t) => t,
            None => {
                return Err(ItemError::MissingField { id, field: StoryField::Time });
            },
        };
        let comment_count = match item.descendants {
            Some(d) => d,
            None => 0,
        };
        Ok(Story { id, title, url: item.url, score, by, time, comment_count, kids: take_kids(item.kids) })
    }
}

impl Story {
    /// A copy with the same view.
    pub fn duplicate(&self) -> (r: Story)
        ensures
            r@ == self@,
    {
        let url = match &self.url {
            Some(u) => Some(u.clone()),
            None => None,
        };
        let kids = self.kids.clone();
        assert(kids@ =~= self.kids@);
        Story {
            id: self.id,
            title: self.title.clone(),
            url,
            score: self.score,
            by: self.by.clone(),
            time: self.time,
            comment_count: self.comment_count,
            kids,
        }
    }
}

/// A comment projected at a tree depth, with the flags the controller owns.
#[derive(Debug, Clone)]
pub struct Comment {
    pub id: u64,
    pub by: Option<String>,
    pub time: Option<i64>,
    pub text: String,
    pub kids: Vec<u64>,
    pub depth: usize,
    pub collapsed: bool,
    pub deleted: bool,
    pub dead: bool,
    pub children_loaded: bool,
    pub children_loading: bool,
}

pub struct CommentView {
    pub id: u64,
    pub by: Option<Seq<char>>,
    pub time: Option<i64>,
    pub text: Seq<char>,
    pub kids: Seq<u64>,
    pub depth: usize,
    pub collapsed: bool,
    pub deleted: bool,
    pub dead: bool,
    pub children_loaded: bool,
    pub children_loading: bool,
}

impl View for Comment {
    type V = CommentView;

    open spec fn view(&self) -> CommentView {
        CommentView {
            id: self.id,
            by: opt_str_view(self.by),
            time: self.time,
            text: self.text@,
            kids: self.kids@,
            depth: self.depth,
            collapsed: self.collapsed,
            deleted: self.deleted,
            dead: self.dead,
            children_loaded: self.children_loaded,
            children_loading: self.children_loading,
        }
    }
}

/// Text shown for a comment: its own text rendered to plain lines unless
/// blank, else a marker chosen by flag precedence (deleted, then dead).
pub open spec fn comment_text_spec(text: Option<String>, deleted: bool, dead: bool) -> Seq<char> {
    if text is Some && !is_blank_spec(text.unwrap()@) {
        html_to_plain_spec(text.unwrap()@)
    } else if deleted {
        "[deleted]"@
    } else if dead {
        "[dead]"@
    } else {
        "[no text]"@
    }
}

pub open spec fn flag_of(b: Option<bool>) -> bool {
    match b {
        Some(v) => v,
        None => false,
    }
}

pub open spec fn comment_from_item_spec(item: HnItem, depth: usize) -> CommentView {
    CommentView {
        id: item.id,
        by: opt_str_view(item.by),
        time: item.time,
        text: comment_text_spec(item.text, flag_of(item.deleted), flag_of(item.dead)),
        kids: opt_kids_view(item.kids),
        depth,
        collapsed: false,
        deleted: flag_of(item.deleted),
        dead: flag_of(item.dead),
        children_loaded: false,
        children_loading: false,
    }
}

fn flag(b: Option<bool>) -> (r: bool)
    ensures
        r == flag_of(b),
{
    match b {
        Some(v) => v,
        None => false,
    }
}

fn comment_text(text: Option<String>, deleted: bool, dead: bool) -> (r: String)
    ensures
        r@ == comment_text_spec(text, deleted, dead),
{
    if let Some(t) = text {
        let chars = chars_of(t.as_str());
        if !is_blank_text(&chars) {
            return hn_html_to_plain(t.as_str());
        }
    }
    proof {
        reveal_strlit("[deleted]");
        reveal_strlit("[dead]");
        reveal_strlit("[no text]");
    }
    if deleted {
        String::from_str("[deleted]")
    } else if dead {
        String::from_str("[dead]")
    } else {
        String::from_str("[no text]")
    }
}

impl Comment {
    /// Projects a raw item into a comment at `depth`, expanded, with no
    /// children loaded.
    pub fn from_item(item: HnItem, depth: usize) -> (r: Comment)
        ensures
            r@ == comment_from_item_spec(item, depth),
    {
        let deleted = flag(item.deleted);
        let dead = flag(item.dead);
        let text = comment_text(item.text, deleted, dead);
        Comment {
            id: item.id,
            by: item.by,
            time: item.time,
            text,
            kids: take_kids(item.kids),
            depth,
            collapsed: false,
            deleted,
            dead,
            children_loaded: false,
            children_loading: false,
        }
    }

    /// A copy with the same view.
    pub fn duplicate(&self) -> (r: Comment)
        ensures
            r@ == self@,
    {
        let by = match &self.by {
            Some(b) => Some(b.clone()),
            None => None,
        };
        let kids = self.kids.clone();
        assert(kids@ =~= self.kids@);
        Comment {
            id: self.id,
            by,
            time: self.time,
            text: self.text.clone(),
            kids,
            depth: self.depth,
            collapsed: self.collapsed,
            deleted: self.deleted,
            dead: self.dead,
            children_loaded: self.children_loaded,
            children_loading: self.children_loading,
        }
    }
}

/// A comment and the subtree it owns exclusively.
#[derive(Debug)]
pub struct CommentNode {
    pub comment: Comment,
    pub children: Vec<CommentNode>,
}

impl CommentNode {
    /// A node without children.
    pub fn leaf(comment: Comment) -> (r: CommentNode)
        ensures
            r.comment == comment,
            r.children@.len() == 0,
    {
        CommentNode { comment, children: Vec::new() }
    }
}

} // verus!
