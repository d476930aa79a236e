//! The event controller: UI-facing state, user actions, and the application
//! of background results tagged with per-operation generations. Background
//! work is requested as effects, which the runtime performs and answers with
//! events.
use vstd::prelude::*;

use std::collections::HashMap;

use crate::config::Cli;
use crate::disk_cache::{decimal, push_decimal};
use crate::fetch::story_views;
use crate::input::{key_action_spec, key_state_spec, Action, KeyInput, KeyState};
use crate::nav::{
    comment_scroll_spec, heights_ready_spec, page_down_heights_spec, page_up_heights_spec, select_spec,
    ensure_visible_spec, move_down_spec, move_up_spec, page_down_spec, page_up_spec,
    ensure_comment_visible, ensure_visible, move_selection_down, move_selection_up, page_down,
    page_down_comment_list, page_up, page_up_comment_list, ListSelection,
};
use crate::text::string_of;
use crate::tree::{
    apply_default_expansion, attach_children_in_tree, comment_info_in_tree, contains_id, edit_forest,
    flatten, flatten_comment_tree, forest_view, set_children_loading_in_tree, set_collapse_in_tree,
    comment_views, NodeEdit,
};
use crate::types::{Comment, CommentNode, Story, StoryView};

verus! {

broadcast use vstd::std_specs::hash::group_hash_axioms;

/// Which screen is shown.
#[derive(Debug, Clone, Copy, PartialEq, Eq, Structural)]
pub enum Screen {
    Stories,
    Comments,
}

/// Whether loaded stories replace the list or extend it.
#[derive(Debug, Clone, Copy, PartialEq, Eq, Structural)]
pub enum StoriesLoadMode {
    Replace,
    Append,
}

/// The operation class a failed load belongs to, whose generation counter
/// decides whether its error is current.
#[derive(Debug, Clone, Copy, PartialEq, Eq, Structural)]
pub enum LoadKind {
    Stories,
    Comments,
}

/// A background result, tagged with the generation it was requested under.
#[derive(Debug)]
pub enum AppEvent {
    StoriesLoaded { generation: u64, mode: StoriesLoadMode, story_ids: Option<Vec<u64>>, stories: Vec<Story> },
    CommentsLoaded { generation: u64, story_id: u64, comments: Vec<CommentNode> },
    CommentsPrefetched { generation: u64, story_id: u64, comments: Vec<CommentNode> },
    CommentChildrenLoaded { generation: u64, parent_id: u64, children: Vec<CommentNode> },
    CommentChildrenError { generation: u64, parent_id: u64, message: String },
    Error { generation: u64, kind: LoadKind, message: String },
    PrefetchError { generation: u64, story_id: u64, message: String },
}

/// Background work the controller asks the runtime to perform.
#[derive(Debug)]
pub enum Effect {
    /// Fetch the top-level id list (bypassing its cache) and the first
    /// `count` stories; answer with `StoriesLoaded` in `Replace` mode.
    LoadStories { generation: u64, count: usize },
    /// Fetch these stories; answer with `StoriesLoaded` in `Append` mode.
    LoadMoreStories { generation: u64, ids: Vec<u64> },
    /// Fetch a story's comment roots; answer with `CommentsLoaded`.
    LoadComments { generation: u64, story_id: u64, kids: Vec<u64> },
    /// Fetch a story's comment roots speculatively; answer with `CommentsPrefetched`.
    PrefetchComments { generation: u64, story_id: u64, kids: Vec<u64> },
    /// Fetch the children of one comment at `depth`; answer with
    /// `CommentChildrenLoaded` or `CommentChildrenError`.
    LoadCommentChildren { generation: u64, parent_id: u64, kids: Vec<u64>, depth: usize },
    /// Persist the story list snapshot.
    SaveStoryList { story_ids: Vec<u64>, stories: Vec<Story> },
    /// Open a URL in the browser.
    OpenUrl { url: String },
}

/// Delay of user inactivity after which comments are prefetched.
pub const IDLE_PREFETCH_DELAY_MS: u64 = 500;

/// Most comment prefetches in flight at once.
pub const MAX_COMMENT_PREFETCH_IN_FLIGHT: usize = 3;

/// The controller's state, read by the renderer each frame.
pub struct App {
    pub view: Screen,
    pub help_visible: bool,
    pub stories: Vec<Story>,
    pub story_ids: Vec<u64>,
    pub story_list_state: ListSelection,
    pub story_loading: bool,
    pub story_page_size: usize,
    pub current_story: Option<Story>,
    pub comment_tree: Vec<CommentNode>,
    pub comment_list: Vec<Comment>,
    pub comment_list_state: ListSelection,
    pub comment_loading: bool,
    pub comment_page_size: usize,
    pub comment_item_heights: Vec<usize>,
    pub comment_viewport_height: usize,
    pub comment_line_offset: usize,
    pub last_error: Option<String>,
    pub prefetch_in_flight: bool,
    /// Stories loaded by a refresh.
    pub count: usize,
    /// Stories loaded by each prefetch page.
    pub page_size: usize,
    /// Comment levels expanded when a tree is shown.
    pub default_visible_levels: usize,
    pub stories_generation: u64,
    pub comments_generation: u64,
    pub comments_prefetch_generation: u64,
    /// Story ids with a comment prefetch in flight, with its generation.
    pub comment_prefetch_generations: HashMap<u64, u64>,
    pub prefetched_comments_cache: HashMap<u64, Vec<CommentNode>>,
    pub awaiting_prefetch_story_id: Option<u64>,
    pub input: KeyState,
    pub quit_requested: bool,
    pub spinner_idx: usize,
    pub now_ms: u64,
    pub last_user_activity_ms: u64,
    pub pending_story_selection_id: Option<u64>,
    pub comment_children_generation: u64,
    /// Parent comment ids with a children fetch in flight, with its generation.
    pub comment_children_in_flight: HashMap<u64, u64>,
    pub effects: Vec<Effect>,
}

/// Whether a background result no longer matches what it was requested for.
pub open spec fn stale_event(a: App, e: AppEvent) -> bool {
    match e {
        AppEvent::StoriesLoaded { generation, .. } => generation != a.stories_generation,
        AppEvent::CommentsLoaded { generation, story_id, .. } => generation != a.comments_generation
            || a.current_story is None || a.current_story.unwrap().id != story_id,
        AppEvent::CommentsPrefetched { generation, story_id, .. } => !a.comment_prefetch_generations@.contains_key(
            story_id,
        ) || a.comment_prefetch_generations@[story_id] != generation,
        AppEvent::PrefetchError { generation, story_id, .. } => !a.comment_prefetch_generations@.contains_key(
            story_id,
        ) || a.comment_prefetch_generations@[story_id] != generation,
        AppEvent::CommentChildrenLoaded { generation, parent_id, .. } => !a.comment_children_in_flight@.contains_key(
            parent_id,
        ) || a.comment_children_in_flight@[parent_id] != generation,
        AppEvent::CommentChildrenError { generation, parent_id, .. } => !a.comment_children_in_flight@.contains_key(
            parent_id,
        ) || a.comment_children_in_flight@[parent_id] != generation,
        AppEvent::Error { generation, kind, .. } => match kind {
            LoadKind::Stories => generation != a.stories_generation,
            LoadKind::Comments => generation != a.comments_generation,
        },
    }
}

/// How far row `i` is from row `anchor`.
pub open spec fn distance(i: int, anchor: int) -> int {
    if i >= anchor { i - anchor } else { anchor - i }
}

pub open spec fn next_generation(g: u64) -> u64 {
    if g == u64::MAX { 0 } else { (g + 1) as u64 }
}

fn bump(g: u64) -> (r: u64)
    ensures
        r == next_generation(g),
{
    if g == u64::MAX { 0 } else { g + 1 }
}

/// Rank of row `i` in the prefetch order around `anchor`: by distance, the
/// upper row first on ties.
pub open spec fn prefetch_rank(i: int, anchor: int) -> int {
    2 * distance(i, anchor) + if i < anchor { 0int } else { 1int }
}

/// The generation `n` steps after `g`.
pub open spec fn nth_generation(g: u64, n: nat) -> u64
    decreases n,
{
    if n == 0 { g } else { next_generation(nth_generation(g, (n - 1) as nat)) }
}

/// Whether one of the rows `p` holds the story `id`.
pub open spec fn picks_story(a: App, p: Seq<usize>, id: u64) -> bool {
    exists|j: int| 0 <= j < p.len() && a.stories@[p[j] as int].id == id
}

/// Rows started by a prefetch pass over the candidates `c`, in order: each
/// one whose story can be prefetched and is not started yet, while fewer
/// than the limit are in flight.
pub open spec fn prefetch_picks(a: App, c: Seq<usize>) -> Seq<usize>
    decreases c.len(),
{
    if c.len() == 0 {
        Seq::empty()
    } else {
        let prev = prefetch_picks(a, c.drop_last());
        let idx = c.last();
        if a.comment_prefetch_generations@.len() + prev.len() < MAX_COMMENT_PREFETCH_IN_FLIGHT
            && a.can_prefetch_spec(idx as int) && !picks_story(a, prev, a.stories@[idx as int].id) {
            prev.push(idx)
        } else {
            prev
        }
    }
}

/// In-flight prefetch generations after starting the rows `p` in order.
pub open spec fn prefetch_generations(a: App, p: Seq<usize>) -> Map<u64, u64>
    decreases p.len(),
{
    if p.len() == 0 {
        a.comment_prefetch_generations@
    } else {
        prefetch_generations(a, p.drop_last()).insert(
            a.stories@[p.last() as int].id,
            nth_generation(a.comments_prefetch_generation, p.len()),
        )
    }
}

/// `b` is `a` with the prefetches of rows `p` started in order: the `j`-th
/// gets the `j + 1`-th next generation and one `PrefetchComments` effect.
pub open spec fn prefetch_started(a: App, b: App, p: Seq<usize>) -> bool {
    let n = a.effects@.len() as int;
    let added = b.effects@.subrange(n, b.effects@.len() as int);
    &&& b.comments_prefetch_generation == nth_generation(a.comments_prefetch_generation, p.len())
    &&& b.comment_prefetch_generations@ == prefetch_generations(a, p)
    &&& b.effects@.len() == n + p.len()
    &&& b.effects@.subrange(0, n) == a.effects@
    &&& forall|j: int|
        0 <= j < p.len() ==> ((#[trigger] added[j]) matches Effect::PrefetchComments { generation, story_id, kids }
            && generation == nth_generation(a.comments_prefetch_generation, (j + 1) as nat) && story_id
            == a.stories@[p[j] as int].id && kids@ == a.stories@[p[j] as int].kids@)
}

/// `b` is `a` after one idle prefetch pass: when `a` is ready, the
/// candidates are taken in order and started as `prefetch_picks` says;
/// otherwise nothing changes. Only the prefetch bookkeeping and the effects
/// change.
pub open spec fn prefetch_post(a: App, b: App) -> bool {
    &&& b == (App {
        comment_prefetch_generations: b.comment_prefetch_generations,
        comments_prefetch_generation: b.comments_prefetch_generation,
        effects: b.effects,
        ..a
    })
    &&& !a.prefetch_ready() ==> b.comment_prefetch_generations == a.comment_prefetch_generations
        && b.comments_prefetch_generation == a.comments_prefetch_generation && b.effects == a.effects
    &&& a.prefetch_ready() ==> exists|c: Seq<usize>| a.candidate_order(c) && prefetch_started(a, b, prefetch_picks(a, c))
}

proof fn lemma_picks_prefetchable(a: App, c: Seq<usize>)
    ensures
        forall|j: int|
            0 <= j < prefetch_picks(a, c).len() ==> a.can_prefetch_spec(#[trigger] prefetch_picks(a, c)[j] as int),
    decreases c.len(),
{
    if c.len() > 0 {
        lemma_picks_prefetchable(a, c.drop_last());
        let prev = prefetch_picks(a, c.drop_last());
        assert forall|j: int|
            0 <= j < prefetch_picks(a, c).len() implies a.can_prefetch_spec(#[trigger] prefetch_picks(a, c)[j] as int) by {
            if j < prev.len() {
                assert(prefetch_picks(a, c)[j] == prev[j]);
            }
        }
    }
}

proof fn lemma_prefetch_generations_values(a: App, p: Seq<usize>)
    requires
        a.comment_prefetch_generations@ == Map::<u64, u64>::empty(),
    ensures
        forall|k: u64|
            #[trigger] prefetch_generations(a, p).contains_key(k) ==> exists|n: nat|
                1 <= n && prefetch_generations(a, p)[k] == nth_generation(a.comments_prefetch_generation, n),
    decreases p.len(),
{
    if p.len() > 0 {
        let q = p.drop_last();
        lemma_prefetch_generations_values(a, q);
        let id = a.stories@[p.last() as int].id;
        assert forall|k: u64| #[trigger] prefetch_generations(a, p).contains_key(k) implies exists|n: nat|
            1 <= n && prefetch_generations(a, p)[k] == nth_generation(a.comments_prefetch_generation, n) by {
            if k == id {
                assert(prefetch_generations(a, p)[k] == nth_generation(a.comments_prefetch_generation, p.len()));
            } else {
                assert(prefetch_generations(a, q).contains_key(k));
                let n = choose|n: nat| 1 <= n && prefetch_generations(a, q)[k] == nth_generation(
                    a.comments_prefetch_generation,
                    n,
                );
                assert(prefetch_generations(a, p)[k] == nth_generation(a.comments_prefetch_generation, n));
            }
        }
    }
}

proof fn lemma_prefetch_generations_keys(a: App, p: Seq<usize>)
    ensures
        forall|k: u64|
            #[trigger] prefetch_generations(a, p).contains_key(k) <==> a.comment_prefetch_generations@.contains_key(k)
                || picks_story(a, p, k),
    decreases p.len(),
{
    if p.len() > 0 {
        let q = p.drop_last();
        lemma_prefetch_generations_keys(a, q);
        let id = a.stories@[p.last() as int].id;
        assert(prefetch_generations(a, p) == prefetch_generations(a, q).insert(
            id,
            nth_generation(a.comments_prefetch_generation, p.len()),
        ));
        assert forall|k: u64| #[trigger] prefetch_generations(a, p).contains_key(k) <==> a.comment_prefetch_generations@.contains_key(k)
            || picks_story(a, p, k) by {
            let last = p.len() - 1;
            assert(p[last] == p.last());
            if picks_story(a, q, k) {
                let j = choose|j: int| 0 <= j < q.len() && a.stories@[q[j] as int].id == k;
                assert(p[j] == q[j]);
                assert(picks_story(a, p, k));
            }
            if picks_story(a, p, k) {
                let j = choose|j: int| 0 <= j < p.len() && a.stories@[p[j] as int].id == k;
                if j < q.len() {
                    assert(q[j] == p[j]);
                    assert(picks_story(a, q, k));
                } else {
                    assert(k == id);
                }
            }
            if k == id {
                assert(0 <= last < p.len() && a.stories@[p[last] as int].id == k);
                assert(picks_story(a, p, k));
            }
        }
    }
}

/// `b` is `a` after requesting the children of comment `parent_id`: a new
/// children generation, recorded as in flight; the node marked loading and
/// expanded, and the list rebuilt; one `LoadCommentChildren` effect for the
/// node's kids one level deeper.
pub open spec fn children_requested(a: App, b: App, parent_id: u64) -> bool {
    let f = forest_view(a.comment_tree@);
    let c = crate::tree::find_node(f, parent_id).unwrap().comment;
    &&& b.comment_children_generation == next_generation(a.comment_children_generation)
    &&& b.comment_children_in_flight@ == a.comment_children_in_flight@.insert(parent_id, b.comment_children_generation)
    &&& forest_view(b.comment_tree@) == edit_forest(
        edit_forest(f, parent_id, NodeEdit::SetChildrenLoading(true)),
        parent_id,
        NodeEdit::SetCollapsed(false),
    )
    &&& comment_views(b.comment_list@) == flatten(forest_view(b.comment_tree@))
    &&& b.effects@.len() == a.effects@.len() + 1
    &&& b.effects@.subrange(0, a.effects@.len() as int) == a.effects@
    &&& b.effects@.last() matches Effect::LoadCommentChildren { generation, parent_id: p, kids, depth }
        && generation == b.comment_children_generation && p == parent_id && kids@ == c.kids && depth == (if c.depth
        == usize::MAX {
        c.depth
    } else {
        (c.depth + 1) as usize
    })
}

/// `b` is `a` after collapsing the selected comment, which applies when it
/// has children and is expanded.
pub open spec fn collapse_post(a: App, b: App) -> bool {
    let sel = a.comment_list_state.selected;
    let applies = sel is Some && sel.unwrap() < a.comment_list@.len() && a.comment_list@[sel.unwrap() as int].kids@.len()
        > 0 && !a.comment_list@[sel.unwrap() as int].collapsed;
    let id = a.comment_list@[sel.unwrap() as int].id;
    let f = forest_view(a.comment_tree@);
    &&& applies ==> forest_view(b.comment_tree@) == edit_forest(f, id, NodeEdit::SetCollapsed(true))
    &&& applies && contains_id(f, id) ==> comment_views(b.comment_list@) == flatten(forest_view(b.comment_tree@))
    &&& applies && !contains_id(f, id) ==> (b.last_error matches Some(m) && m@ == not_found_message(id))
    &&& !applies ==> b.comment_tree == a.comment_tree
    &&& b.effects == a.effects
}

/// `b` is `a` after expanding the selected comment, which applies when it
/// has children: their fetch is requested when they are neither loaded nor
/// loading nor in flight; otherwise the node is expanded.
pub open spec fn expand_post(a: App, b: App) -> bool {
    let sel = a.comment_list_state.selected;
    let applies = sel is Some && sel.unwrap() < a.comment_list@.len() && a.comment_list@[sel.unwrap() as int].kids@.len()
        > 0;
    let id = a.comment_list@[sel.unwrap() as int].id;
    let f = forest_view(a.comment_tree@);
    &&& !applies ==> b.comment_tree == a.comment_tree && b.effects == a.effects
    &&& applies && !contains_id(f, id) ==> (b.last_error matches Some(m) && m@ == not_found_message(id))
        && b.comment_tree == a.comment_tree && b.effects == a.effects
    &&& applies && a.wants_children(id) ==> children_requested(a, b, id)
    &&& applies && contains_id(f, id) && !a.wants_children(id) ==> forest_view(b.comment_tree@) == edit_forest(
        f,
        id,
        NodeEdit::SetCollapsed(false),
    ) && comment_views(b.comment_list@) == flatten(forest_view(b.comment_tree@)) && b.effects == a.effects
        && b.comment_children_in_flight == a.comment_children_in_flight
}

/// `b` is `a` after opening the comments of the selected story: shown at
/// once when they are current or prefetched, awaited when their prefetch is
/// in flight, fetched under a new generation otherwise.
pub open spec fn open_comments_post(a: App, b: App) -> bool {
    let idx = a.selected_index();
    let s = a.stories@[idx];
    let levels = (if a.default_visible_levels == 0 {
        0
    } else {
        (a.default_visible_levels - 1) as usize
    });
    let present = idx < a.stories@.len();
    let same = a.current_story is Some && a.current_story.unwrap().id == s.id
        && a.comment_tree@.len() > 0;
    let cached = a.prefetched_comments_cache@.contains_key(s.id);
    let in_flight = a.comment_prefetch_generations@.contains_key(s.id);
    &&& !present ==> b == a
    &&& present && same ==> b == (App { view: Screen::Comments, ..a })
    &&& present && !same ==> (b.current_story matches Some(c) && c@ == s@)
        && b.view == Screen::Comments && b.last_error is None
    &&& present && !same && cached ==> {
        &&& b.prefetched_comments_cache@ == a.prefetched_comments_cache@.remove(s.id)
        &&& forest_view(b.comment_tree@) == crate::tree::expand_forest(
            forest_view(a.prefetched_comments_cache@[s.id]@),
            levels,
        )
        &&& comment_views(b.comment_list@) == flatten(forest_view(b.comment_tree@))
        &&& !b.comment_loading
        &&& b.effects == a.effects
        &&& b.comments_generation == a.comments_generation
    }
    &&& present && !same && !cached && in_flight ==> {
        &&& !(a.current_story matches Some(c) && c.id == s.id) ==> b.comment_tree@.len() == 0
            && b.comment_list@.len() == 0 && b.comment_children_in_flight@ == Map::<u64, u64>::empty()
        &&& b.awaiting_prefetch_story_id == Some(s.id)
        &&& b.comment_loading
        &&& b.effects == a.effects
        &&& b.comments_generation == a.comments_generation
    }
    &&& present && !same && !cached && !in_flight ==> {
        &&& !(a.current_story matches Some(c) && c.id == s.id) ==> b.comment_tree@.len() == 0
            && b.comment_list@.len() == 0 && b.comment_children_in_flight@ == Map::<u64, u64>::empty()
        &&& b.comments_generation == next_generation(a.comments_generation)
        &&& b.comment_loading
        &&& b.awaiting_prefetch_story_id is None
        &&& b.effects@.len() == a.effects@.len() + 1
        &&& b.effects@.subrange(0, a.effects@.len() as int) == a.effects@
        &&& b.effects@.last() matches Effect::LoadComments { generation, story_id, kids }
            && generation == b.comments_generation && story_id == s.id && kids@ == s.kids@
    }
}

/// `b` is `a` after toggling the selected comment: a collapsed one with
/// children is expanded, an expanded one collapsed.
pub open spec fn toggle_post(a: App, b: App) -> bool {
    let sel = a.comment_list_state.selected;
    let applies = sel is Some && sel.unwrap() < a.comment_list@.len() && a.comment_list@[sel.unwrap() as int].kids@.len()
        > 0;
    let collapsed = a.comment_list@[sel.unwrap() as int].collapsed;
    &&& applies && collapsed ==> expand_post(a, b)
    &&& applies && !collapsed ==> collapse_post(a, b)
    &&& !applies ==> b == a
}

/// The page a story links to, or its discussion page when it has no link.
pub open spec fn story_url_spec(story: Story) -> Seq<char> {
    match story.url {
        Some(u) => u@,
        None => item_page_url(story.id),
    }
}

/// `b` is `a` after asking to open `url` in the browser, or after reporting
/// that there is no story to open when `url` is `None`.
pub open spec fn open_url_post(a: App, b: App, url: Option<Seq<char>>) -> bool {
    match url {
        Some(u) => b == (App { effects: b.effects, ..a }) && b.effects@.len() == a.effects@.len() + 1
            && b.effects@.subrange(0, a.effects@.len() as int) == a.effects@ && (b.effects@.last() matches Effect::OpenUrl {
            url,
        } && url@ == u),
        None => b.last_error is Some && b.effects == a.effects,
    }
}

/// `b` is `a` with the comment selection set to `st` and the view scrolled
/// by rows to show it, when row heights are known; only the selection and
/// the line offset change.
pub open spec fn comment_scrolled(a: App, st: ListSelection, b: App) -> bool {
    let len = a.comment_list@.len() as usize;
    let hs = a.comment_item_heights@;
    let vp = a.comment_viewport_height;
    &&& b == (App { comment_list_state: b.comment_list_state, comment_line_offset: b.comment_line_offset, ..a })
    &&& heights_ready_spec(len, hs, vp) ==> (b.comment_list_state, b.comment_line_offset) == comment_scroll_spec(
        st,
        a.comment_line_offset,
        hs,
        vp,
    )
    &&& !heights_ready_spec(len, hs, vp) ==> b.comment_list_state == st && b.comment_line_offset
        == a.comment_line_offset
}

/// `b` is `a` after paging the comment list down (or up): by rows of the
/// known heights, else by a fixed page.
pub open spec fn comment_paged(a: App, b: App, down: bool) -> bool {
    let len = a.comment_list@.len() as usize;
    let hs = a.comment_item_heights@;
    let vp = a.comment_viewport_height;
    let st = a.comment_list_state;
    &&& b == (App { comment_list_state: b.comment_list_state, comment_line_offset: b.comment_line_offset, ..a })
    &&& heights_ready_spec(len, hs, vp) ==> (b.comment_list_state, b.comment_line_offset) == comment_scroll_spec(
        if down { page_down_heights_spec(st, hs, vp) } else { page_up_heights_spec(st, hs, vp) },
        a.comment_line_offset,
        hs,
        vp,
    )
    &&& !heights_ready_spec(len, hs, vp) ==> b.comment_list_state == (if down {
        page_down_spec(st, len, a.comment_page_size)
    } else {
        page_up_spec(st, a.comment_page_size)
    }) && b.comment_line_offset == a.comment_line_offset
}

/// `b` is `a` after the user action `action`.
pub open spec fn action_post(a: App, b: App, action: Action) -> bool {
    &&& (action == Action::ToggleHelp ==> b == (App { help_visible: !a.help_visible, ..a }))
    &&& (action != Action::ToggleHelp && a.help_visible ==> b == (App {
        help_visible: action != Action::BackOrQuit,
        ..a
    }))
    &&& (action == Action::BackOrQuit && !a.help_visible && a.view == Screen::Stories
        ==> b.quit_requested)
    &&& (action == Action::BackOrQuit && !a.help_visible && a.view == Screen::Comments
        ==> b.view == Screen::Stories)
    &&& (action == Action::Refresh && !a.help_visible && a.view == Screen::Stories
        ==> b.stories_generation == next_generation(a.stories_generation)
        && b.story_loading)
    &&& (action == Action::Refresh && !a.help_visible && a.view == Screen::Comments
        ==> (a.current_story is None ==> b.last_error is Some) && (a.current_story is Some
        ==> b.comments_generation == next_generation(a.comments_generation)
        && b.comment_loading))
    &&& ((action == Action::Enter || action == Action::OpenComments || action == Action::Expand)
        && !a.help_visible && a.view == Screen::Stories ==> open_comments_post(
        a,
        b))
    &&& (action == Action::OpenPrimaryBrowser && !a.help_visible && a.view == Screen::Stories
        ==> open_url_post(
        a,
        b,
        match a.selected_story_spec() {
            Some(s) => Some(story_url_spec(s)),
            None => None,
        }))
    &&& (action == Action::OpenSecondaryBrowser && !a.help_visible && a.view == Screen::Stories
        ==> open_url_post(
        a,
        b,
        match a.selected_story_spec() {
            Some(s) => Some(item_page_url(s.id)),
            None => None,
        }))
    &&& (action == Action::OpenPrimaryBrowser && !a.help_visible && a.view == Screen::Comments
        ==> open_url_post(
        a,
        b,
        match a.current_story {
            Some(s) => Some(item_page_url(s.id)),
            None => None,
        }))
    &&& (action == Action::OpenSecondaryBrowser && !a.help_visible && a.view == Screen::Comments
        ==> open_url_post(
        a,
        b,
        match a.current_story {
            Some(s) => Some(story_url_spec(s)),
            None => None,
        }))
    &&& (action == Action::Collapse && !a.help_visible && a.view == Screen::Comments
        ==> collapse_post(a, b))
    &&& (action == Action::Expand && !a.help_visible && a.view == Screen::Comments
        ==> expand_post(a, b))
    &&& ((action == Action::Enter || action == Action::ToggleCollapse) && !a.help_visible
        && a.view == Screen::Comments ==> toggle_post(a, b))
    &&& (action == Action::MoveDown && !a.help_visible && a.view == Screen::Stories
        ==> b.story_list_state == ensure_visible_spec(
        move_down_spec(a.story_list_state, a.stories@.len() as usize),
        a.stories@.len() as usize,
        a.story_page_size))
    &&& (action == Action::MoveUp && !a.help_visible && a.view == Screen::Stories
        ==> b.story_list_state == ensure_visible_spec(
        move_up_spec(a.story_list_state),
        a.stories@.len() as usize,
        a.story_page_size))
    &&& (action == Action::PageDown && !a.help_visible && a.view == Screen::Stories
        ==> b.story_list_state == page_down_spec(
        a.story_list_state,
        a.stories@.len() as usize,
        a.story_page_size))
    &&& (action == Action::PageUp && !a.help_visible && a.view == Screen::Stories
        ==> b.story_list_state == page_up_spec(a.story_list_state, a.story_page_size))
    &&& (action == Action::GoTop && !a.help_visible && a.view == Screen::Stories
        ==> b.story_list_state == ListSelection::new_spec())
    &&& (action == Action::GoBottom && !a.help_visible && a.view == Screen::Stories && a.stories@.len() > 0
        ==> b.story_list_state == ensure_visible_spec(
        select_spec(a.story_list_state, Some((a.stories@.len() - 1) as usize)),
        a.stories@.len() as usize,
        a.story_page_size))
    &&& (action == Action::GoBottom && !a.help_visible && a.view == Screen::Stories && a.stories@.len() == 0
        ==> b == a)
    &&& (action == Action::MoveDown && !a.help_visible && a.view == Screen::Comments ==> comment_scrolled(
        a,
        move_down_spec(a.comment_list_state, a.comment_list@.len() as usize),
        b))
    &&& (action == Action::MoveUp && !a.help_visible && a.view == Screen::Comments ==> comment_scrolled(
        a,
        move_up_spec(a.comment_list_state),
        b))
    &&& (action == Action::GoTop && !a.help_visible && a.view == Screen::Comments ==> comment_scrolled(
        a,
        select_spec(a.comment_list_state, Some(0)),
        b))
    &&& (action == Action::GoBottom && !a.help_visible && a.view == Screen::Comments && a.comment_list@.len() > 0
        ==> comment_scrolled(a, select_spec(a.comment_list_state, Some((a.comment_list@.len() - 1) as usize)), b))
    &&& (action == Action::GoBottom && !a.help_visible && a.view == Screen::Comments && a.comment_list@.len() == 0
        ==> b == a)
    &&& (action == Action::PageDown && !a.help_visible && a.view == Screen::Comments ==> comment_paged(a, b, true))
    &&& (action == Action::PageUp && !a.help_visible && a.view == Screen::Comments ==> comment_paged(a, b, false))
    &&& ((action == Action::MoveDown || action == Action::MoveUp || action == Action::PageDown || action
        == Action::PageUp || action == Action::GoTop || action == Action::GoBottom) && !a.help_visible
        && a.view == Screen::Stories ==> b.stories == a.stories
        && b.comment_tree == a.comment_tree && b.view == a.view)
}

pub open spec fn item_page_url(id: u64) -> Seq<char> {
    "https://news.ycombinator.com/item?id="@ + decimal(id as nat)
}

/// The discussion page of a story.
pub fn comments_url(id: u64) -> (r: String)
    ensures
        r@ == item_page_url(id),
{
    let prefix = String::from_str("https://news.ycombinator.com/item?id=");
    let mut out = crate::text::chars_of(prefix.as_str());
    proof {
        reveal_strlit("https://news.ycombinator.com/item?id=");
    }
    push_decimal(id as u128, &mut out);
    string_of(&out)
}

/// The page a story links to, or its discussion page when it has no link.
pub fn story_url(story: &Story) -> (r: String)
    ensures
        r@ == story_url_spec(*story),
{
    match &story.url {
        Some(u) => u.clone(),
        None => comments_url(story.id),
    }
}

fn clone_ids(ids: &Vec<u64>) -> (r: Vec<u64>)
    ensures
        r@ == ids@,
{
    let r = ids.clone();
    assert(r@ =~= ids@);
    r
}

/// Copies of the stories, in order.
pub fn clone_stories(stories: &Vec<Story>) -> (r: Vec<Story>)
    ensures
        story_views(r@) == story_views(stories@),
{
    let mut out: Vec<Story> = Vec::new();
    let mut i: usize = 0;
    while i < stories.len()
        invariant
            i <= stories@.len(),
            out@.len() == i,
            forall|j: int| 0 <= j < i ==> (#[trigger] out@[j])@ == stories@[j]@,
        decreases stories@.len() - i,
    {
        out.push(stories[i].duplicate());
        i = i + 1;
    }
    assert(story_views(out@) =~= story_views(stories@));
    out
}

/// Position of the story with this id.
pub fn position_of_story(stories: &Vec<Story>, id: u64) -> (r: Option<usize>)
    ensures
        r matches Some(i) ==> i < stories@.len() && stories@[i as int].id == id && forall|j: int|
            0 <= j < i ==> (#[trigger] stories@[j]).id != id,
        r is None ==> forall|j: int| 0 <= j < stories@.len() ==> (#[trigger] stories@[j]).id != id,
{
    let mut i: usize = 0;
    while i < stories.len()
        invariant
            i <= stories@.len(),
            forall|j: int| 0 <= j < i ==> (#[trigger] stories@[j]).id != id,
        decreases stories@.len() - i,
    {
        if stories[i].id == id {
            return Some(i);
        }
        i = i + 1;
    }
    None
}

/// Position of the comment with this id in a flattened list.
pub fn position_of_comment(comments: &Vec<Comment>, id: u64) -> (r: Option<usize>)
    ensures
        r matches Some(i) ==> i < comments@.len() && comments@[i as int].id == id,
        r is None ==> forall|j: int| 0 <= j < comments@.len() ==> (#[trigger] comments@[j]).id != id,
{
    let mut i: usize = 0;
    while i < comments.len()
        invariant
            i <= comments@.len(),
            forall|j: int| 0 <= j < i ==> (#[trigger] comments@[j]).id != id,
        decreases comments@.len() - i,
    {
        if comments[i].id == id {
            return Some(i);
        }
        i = i + 1;
    }
    None
}

pub open spec fn not_found_message(id: u64) -> Seq<char> {
    "comment not found id="@ + decimal(id as nat)
}

/// The error shown when a comment id is not in the tree.
fn comment_not_found(id: u64) -> (r: String)
    ensures
        r@ == not_found_message(id),
{
    let prefix = String::from_str("comment not found id=");
    let mut out = crate::text::chars_of(prefix.as_str());
    proof {
        reveal_strlit("comment not found id=");
    }
    push_decimal(id as u128, &mut out);
    string_of(&out)
}

fn message(text: &str) -> (r: String)
    ensures
        r@ == text@,
{
    String::from_str(text)
}

impl App {
    /// A controller showing the (empty) story list, configured by `cli`.
    pub fn new(cli: &Cli, now_ms: u64) -> (r: App)
        ensures
            r.view == Screen::Stories,
            r.stories@.len() == 0,
            r.story_ids@.len() == 0,
            r.story_list_state == ListSelection::new_spec(),
            r.current_story is None,
            r.count == cli.count,
            r.page_size == cli.page_size,
            r.stories_generation == 0,
            r.comments_generation == 0,
            r.effects@.len() == 0,
            r.comment_prefetch_generations@ == Map::<u64, u64>::empty(),
            r.comment_children_in_flight@ == Map::<u64, u64>::empty(),
            !r.quit_requested,
    {
        App {
            view: Screen::Stories,
            help_visible: false,
            stories: Vec::new(),
            story_ids: Vec::new(),
            story_list_state: ListSelection::new(),
            story_loading: false,
            story_page_size: 10,
            current_story: None,
            comment_tree: Vec::new(),
            comment_list: Vec::new(),
            comment_list_state: ListSelection::new(),
            comment_loading: false,
            comment_page_size: 10,
            comment_item_heights: Vec::new(),
            comment_viewport_height: 0,
            comment_line_offset: 0,
            last_error: None,
            prefetch_in_flight: false,
            count: cli.count,
            page_size: cli.page_size,
            default_visible_levels: 2,
            stories_generation: 0,
            comments_generation: 0,
            comments_prefetch_generation: 0,
            comment_prefetch_generations: HashMap::new(),
            prefetched_comments_cache: HashMap::new(),
            awaiting_prefetch_story_id: None,
            input: KeyState::new(),
            quit_requested: false,
            spinner_idx: 0,
            now_ms,
            last_user_activity_ms: now_ms,
            pending_story_selection_id: None,
            comment_children_generation: 0,
            comment_children_in_flight: HashMap::new(),
            effects: Vec::new(),
        }
    }

    /// Frame of the busy spinner.
    pub fn spinner_frame(&self) -> char {
        let i = self.spinner_idx % 8;
        if i == 0 {
            '\u{280b}'
        } else if i == 1 {
            '\u{2819}'
        } else if i == 2 {
            '\u{2839}'
        } else if i == 3 {
            '\u{2838}'
        } else if i == 4 {
            '\u{283c}'
        } else if i == 5 {
            '\u{2834}'
        } else if i == 6 {
            '\u{2826}'
        } else {
            '\u{2827}'
        }
    }

    /// Row of the story list that actions apply to: the selection, or the
    /// first row.
    pub open spec fn selected_index(&self) -> int {
        match self.story_list_state.selected {
            Some(s) => s as int,
            None => 0,
        }
    }

    /// Whether the children of comment `parent_id` should be fetched: none
    /// is in flight for it, and its node has children that are neither
    /// loaded nor loading.
    pub open spec fn wants_children(&self, parent_id: u64) -> bool {
        let f = forest_view(self.comment_tree@);
        let c = crate::tree::find_node(f, parent_id).unwrap().comment;
        &&& !self.comment_children_in_flight@.contains_key(parent_id)
        &&& contains_id(f, parent_id)
        &&& c.kids.len() > 0
        &&& !c.children_loaded
        &&& !c.children_loading
    }

    pub open spec fn busy_spec(&self) -> bool {
        self.story_loading || self.prefetch_in_flight || self.comment_loading
            || self.comment_prefetch_generations@.len() > 0 || self.comment_children_in_flight@.len() > 0
    }

    /// Whether any load is in flight.
    pub fn is_busy(&self) -> (r: bool)
        ensures
            r == self.busy_spec(),
    {
        self.story_loading || self.prefetch_in_flight || self.comment_loading
            || !self.comment_prefetch_generations.is_empty() || !self.comment_children_in_flight.is_empty()
    }

    /// Periodic tick at time `now_ms`: advances the spinner while busy and
    /// runs the idle prefetch check.
    pub fn tick(&mut self, now_ms: u64)
        ensures
            prefetch_post(
                App {
                    now_ms,
                    spinner_idx: if old(self).busy_spec() {
                        (if old(self).spinner_idx == usize::MAX { 0 } else { old(self).spinner_idx + 1 }) as usize
                    } else {
                        old(self).spinner_idx
                    },
                    ..*old(self)
                },
                *final(self),
            ),
    {
        self.now_ms = now_ms;
        if self.is_busy() {
            self.spinner_idx = if self.spinner_idx == usize::MAX { 0 } else { self.spinner_idx + 1 };
        }
        self.maybe_prefetch_comments();
    }

    /// Records user activity, which postpones idle prefetching.
    pub fn note_user_activity(&mut self, now_ms: u64)
        ensures
            *final(self) == (App { now_ms, last_user_activity_ms: now_ms, ..*old(self) }),
    {
        self.now_ms = now_ms;
        self.last_user_activity_ms = now_ms;
    }

    /// Shows a previously saved story list; an empty one is refused.
    pub fn restore_story_list_state(&mut self, story_ids: Vec<u64>, stories: Vec<Story>)
        ensures
            story_ids@.len() == 0 || stories@.len() == 0 ==> final(self).last_error is Some && final(self).stories == old(self).stories && final(self).story_ids == old(self).story_ids,
            story_ids@.len() > 0 && stories@.len() > 0 ==> final(self).story_ids@ == story_ids@ && story_views(
                final(self).stories@,
            ) == story_views(stories@) && !final(self).story_loading && final(self).story_list_state
                == ListSelection::new_spec(),
    {
        if story_ids.len() == 0 || stories.len() == 0 {
            self.last_error = Some(message("refusing to restore empty story list state"));
            return;
        }
        self.story_ids = story_ids;
        self.stories = stories;
        self.story_loading = false;
        self.prefetch_in_flight = false;
        self.story_list_state.select(Some(0));
        self.story_list_state.offset = 0;
    }

    fn save_story_list_state_background(&mut self)
        ensures
            *final(self) == (App { effects: final(self).effects, ..*old(self) }),
            old(self).story_ids@.len() == 0 || old(self).stories@.len() == 0 ==> final(self).effects == old(self).effects,
            old(self).story_ids@.len() > 0 && old(self).stories@.len() > 0 ==> final(self).effects@.len()
                == old(self).effects@.len() + 1 && final(self).effects@.subrange(0, old(self).effects@.len() as int)
                == old(self).effects@ && (final(self).effects@.last() matches Effect::SaveStoryList {
                story_ids,
                stories,
            } && story_ids@ == old(self).story_ids@ && story_views(stories@) == story_views(old(self).stories@)),
    {
        if self.story_ids.len() == 0 || self.stories.len() == 0 {
            return;
        }
        let story_ids = clone_ids(&self.story_ids);
        let stories = clone_stories(&self.stories);
        let ghost before = self.effects@;
        self.effects.push(Effect::SaveStoryList { story_ids, stories });
        assert(self.effects@.subrange(0, before.len() as int) =~= before);
    }

    pub fn should_quit(&self) -> (r: bool)
        ensures
            r == self.quit_requested,
    {
        self.quit_requested
    }

    /// Scrolls the comment view by rows so that the selection shows.
    pub fn ensure_comment_line_offset(&mut self)
        ensures
            comment_scrolled(*old(self), old(self).comment_list_state, *final(self)),
    {
        let len = self.comment_list.len();
        ensure_comment_visible(
            &mut self.comment_list_state,
            &mut self.comment_line_offset,
            len,
            &self.comment_item_heights,
            self.comment_viewport_height,
        );
    }

    /// Reloads the story list under a new generation, superseding any load
    /// in flight.
    pub fn refresh_stories(&mut self)
        ensures
            final(self).stories_generation == next_generation(old(self).stories_generation),
            final(self).story_loading,
            !final(self).prefetch_in_flight,
            final(self).last_error is None,
            final(self).stories == old(self).stories,
            final(self).pending_story_selection_id == (if old(self).selected_index() < old(self).stories@.len() {
                Some(old(self).stories@[old(self).selected_index()].id)
            } else {
                None
            }),
            final(self).effects@ == old(self).effects@.push(
                Effect::LoadStories { generation: final(self).stories_generation, count: old(self).count },
            ),
    {
        self.stories_generation = bump(self.stories_generation);
        let generation = self.stories_generation;
        self.pending_story_selection_id = match self.selected_story() {
            Some(s) => Some(s.id),
            None => None,
        };
        self.last_error = None;
        self.story_loading = true;
        self.prefetch_in_flight = false;
        if self.stories.len() == 0 {
            self.story_list_state.select(Some(0));
            self.story_list_state.offset = 0;
        }
        self.effects.push(Effect::LoadStories { generation, count: self.count });
    }

    /// Reloads the comments of the current story.
    pub fn refresh_comments(&mut self)
        ensures
            old(self).current_story is None ==> final(self).last_error is Some,
            old(self).current_story is Some ==> final(self).comments_generation == next_generation(
                old(self).comments_generation,
            ) && final(self).comment_loading,
            old(self).current_story is None ==> final(self).effects == old(self).effects,
            old(self).current_story matches Some(s) ==> final(self).effects@.len() == old(self).effects@.len() + 1
                && final(self).effects@.subrange(0, old(self).effects@.len() as int) == old(self).effects@
                && (final(self).effects@.last() matches Effect::LoadComments { generation, story_id, kids }
                && generation == final(self).comments_generation && story_id == s.id && kids@ == s.kids@),
    {
        let story = match &self.current_story {
            Some(s) => s.duplicate(),
            None => {
                self.last_error = Some(message("no current story"));
                return;
            },
        };
        self.load_comments_for_story(story, true);
    }

    /// Whether the next page of stories should be fetched: nothing is
    /// loading, more ids remain, and the list is shorter than a page or the
    /// selection is in its last fifth.
    pub open spec fn wants_more_stories(&self) -> bool {
        let sel = match self.story_list_state.selected {
            Some(s) => s as int,
            None => 0,
        };
        let loaded = self.stories@.len() as int;
        let cap = usize::MAX as int;
        &&& !self.story_loading
        &&& !self.prefetch_in_flight
        &&& self.story_ids@.len() > 0
        &&& loaded > 0
        &&& (loaded < self.story_page_size || (if sel * 10 > cap { cap } else { sel * 10 }) >= (if loaded * 8
            > cap {
            cap
        } else {
            loaded * 8
        }))
        &&& loaded < self.story_ids@.len()
    }

    /// Fetches the next page of stories when the list is short or the
    /// selection is in its last fifth.
    pub fn maybe_prefetch_stories(&mut self)
        ensures
            *final(self) == (App {
                prefetch_in_flight: final(self).prefetch_in_flight,
                effects: final(self).effects,
                ..*old(self)
            }),
            !old(self).wants_more_stories() ==> final(self).effects == old(self).effects
                && final(self).prefetch_in_flight == old(self).prefetch_in_flight,
            old(self).wants_more_stories() ==> ({
                let start = old(self).stories@.len() as int;
                let end = if start + old(self).page_size < old(self).story_ids@.len() {
                    start + old(self).page_size
                } else {
                    old(self).story_ids@.len() as int
                };
                &&& final(self).prefetch_in_flight
                &&& final(self).effects@.len() == old(self).effects@.len() + 1
                &&& final(self).effects@.subrange(0, old(self).effects@.len() as int) == old(self).effects@
                &&& final(self).effects@.last() matches Effect::LoadMoreStories { generation, ids }
                    && generation == old(self).stories_generation && ids@ == old(self).story_ids@.subrange(start, end)
            }),
    {
        if self.story_loading || self.prefetch_in_flight {
            return;
        }
        if self.story_ids.len() == 0 || self.stories.len() == 0 {
            return;
        }
        let selected = match self.story_list_state.selected {
            Some(s) => s,
            None => 0,
        };
        let loaded = self.stories.len();
        let should_fill_viewport = loaded < self.story_page_size;
        let max = usize::MAX as u128;
        let scaled_selected = if selected as u128 * 10 > max { max } else { selected as u128 * 10 };
        let scaled_loaded = if loaded as u128 * 8 > max { max } else { loaded as u128 * 8 };
        let should_prefetch = should_fill_viewport || scaled_selected >= scaled_loaded;
        if !should_prefetch {
            return;
        }
        let start = loaded;
        if start >= self.story_ids.len() {
            return;
        }
        let remaining = self.story_ids.len() - start;
        let end = if self.page_size < remaining { start + self.page_size } else { self.story_ids.len() };
        let mut ids: Vec<u64> = Vec::new();
        let mut i = start;
        while i < end
            invariant
                start <= i <= end,
                end <= self.story_ids@.len(),
                ids@ == self.story_ids@.subrange(start as int, i as int),
            decreases end - i,
        {
            ids.push(self.story_ids[i]);
            assert(self.story_ids@.subrange(start as int, i as int).push(self.story_ids@[i as int])
                =~= self.story_ids@.subrange(start as int, i + 1));
            i = i + 1;
        }
        self.prefetch_in_flight = true;
        let generation = self.stories_generation;
        let ghost before = self.effects@;
        self.effects.push(Effect::LoadMoreStories { generation, ids });
        assert(self.effects@.subrange(0, before.len() as int) =~= before);
    }

    /// Whether an idle prefetch pass may start anything: the story list is
    /// shown, fewer than the limit of prefetches run, stories are present
    /// or not loading, and the user has been idle long enough.
    pub open spec fn prefetch_ready(&self) -> bool {
        &&& self.view == Screen::Stories
        &&& self.comment_prefetch_generations@.len() < MAX_COMMENT_PREFETCH_IN_FLIGHT
        &&& !(self.story_loading && self.stories@.len() == 0)
        &&& self.idle_spec()
    }

    /// Starts comment prefetches for the visible stories closest to the
    /// selection, once the user has been idle long enough.
    pub fn maybe_prefetch_comments(&mut self)
        ensures
            prefetch_post(*old(self), *final(self)),
    {
        if self.view != Screen::Stories {
            return;
        }
        if self.comment_prefetch_generations.len() >= MAX_COMMENT_PREFETCH_IN_FLIGHT {
            return;
        }
        if self.story_loading && self.stories.len() == 0 {
            return;
        }
        if !self.is_idle_for_prefetch() {
            return;
        }
        let candidates = self.prefetch_story_candidates();
        let ghost a = *self;
        let ghost c = candidates@;
        proof {
            assert(c.subrange(0, 0) =~= Seq::<usize>::empty());
            assert(self.effects@.subrange(0, a.effects@.len() as int) =~= a.effects@);
            assert(self.effects@.subrange(a.effects@.len() as int, self.effects@.len() as int) =~= Seq::<Effect>::empty());
        }
        let mut i: usize = 0;
        while i < candidates.len()
            invariant
                i <= c.len(),
                c == candidates@,
                a.candidate_order(c),
                a == *old(self),
                *self == (App {
                    comment_prefetch_generations: self.comment_prefetch_generations,
                    comments_prefetch_generation: self.comments_prefetch_generation,
                    effects: self.effects,
                    ..a
                }),
                prefetch_started(a, *self, prefetch_picks(a, c.subrange(0, i as int))),
                self.comment_prefetch_generations@.len() == a.comment_prefetch_generations@.len()
                    + prefetch_picks(a, c.subrange(0, i as int)).len(),
            decreases c.len() - i,
        {
            let idx = candidates[i];
            let ghost p = prefetch_picks(a, c.subrange(0, i as int));
            let ghost before = *self;
            proof {
                assert(c.subrange(0, i + 1).drop_last() =~= c.subrange(0, i as int));
                lemma_prefetch_generations_keys(a, p);
            }
            if self.comment_prefetch_generations.len() < MAX_COMMENT_PREFETCH_IN_FLIGHT
                && self.can_prefetch_story(idx) {
                self.start_comment_prefetch(idx);
                proof {
                    let next_picks = p.push(idx);
                    assert(prefetch_picks(a, c.subrange(0, i + 1)) == next_picks);
                    assert(next_picks.drop_last() =~= p);
                    assert(self.comment_prefetch_generations@ =~= prefetch_generations(a, next_picks));
                    let n = a.effects@.len() as int;
                    let added0 = before.effects@.subrange(n, before.effects@.len() as int);
                    let added = self.effects@.subrange(n, self.effects@.len() as int);
                    assert(added =~= added0.push(self.effects@.last()));
                    assert(self.effects@.subrange(0, n) =~= before.effects@.subrange(0, n));
                    assert forall|j: int| 0 <= j < next_picks.len() implies ((#[trigger] added[j]) matches Effect::PrefetchComments {
                        generation,
                        story_id,
                        kids,
                    } && generation == nth_generation(a.comments_prefetch_generation, (j + 1) as nat)
                        && story_id == a.stories@[next_picks[j] as int].id && kids@ == a.stories@[next_picks[j] as int].kids@) by {
                        if j < p.len() {
                            assert(added[j] == added0[j]);
                        }
                    }
                }
            } else {
                proof {
                    assert(prefetch_picks(a, c.subrange(0, i + 1)) == p);
                }
            }
            i = i + 1;
        }
        proof {
            assert(c.subrange(0, c.len() as int) =~= c);
        }
    }

    pub open spec fn idle_spec(&self) -> bool {
        self.now_ms >= self.last_user_activity_ms && self.now_ms - self.last_user_activity_ms
            >= IDLE_PREFETCH_DELAY_MS
    }

    fn is_idle_for_prefetch(&self) -> (r: bool)
        ensures
            r == self.idle_spec(),
    {
        self.now_ms >= self.last_user_activity_ms && self.now_ms - self.last_user_activity_ms
            >= IDLE_PREFETCH_DELAY_MS
    }

    pub open spec fn can_prefetch_spec(&self, idx: int) -> bool {
        0 <= idx < self.stories@.len() && self.stories@[idx].kids@.len() > 0
            && !self.prefetched_comments_cache@.contains_key(self.stories@[idx].id)
            && !self.comment_prefetch_generations@.contains_key(self.stories@[idx].id)
    }

    /// A story is worth prefetching when it has comments that are neither
    /// cached nor in flight.
    fn can_prefetch_story(&self, idx: usize) -> (r: bool)
        ensures
            r == self.can_prefetch_spec(idx as int),
    {
        if idx >= self.stories.len() {
            return false;
        }
        let story = &self.stories[idx];
        if story.kids.len() == 0 {
            return false;
        }
        if self.prefetched_comments_cache.contains_key(&story.id) {
            return false;
        }
        if self.comment_prefetch_generations.contains_key(&story.id) {
            return false;
        }
        true
    }

    /// The row that prefetch candidates are ranked around: the selection,
    /// or the top of the window when nothing is selected.
    pub open spec fn prefetch_anchor(&self) -> int {
        match self.story_list_state.selected {
            Some(s) => s as int,
            None => self.window_start(),
        }
    }

    /// First row of the visible story window.
    pub open spec fn window_start(&self) -> int {
        if self.story_list_state.offset < self.stories@.len() {
            self.story_list_state.offset as int
        } else {
            self.stories@.len() as int
        }
    }

    /// Row after the visible story window, which holds at least one row.
    pub open spec fn window_end(&self) -> int {
        let rows = if self.story_page_size == 0 { 1 } else { self.story_page_size as int };
        if rows < self.stories@.len() - self.window_start() {
            self.window_start() + rows
        } else {
            self.stories@.len() as int
        }
    }

    /// `c` lists the rows of the visible window whose story can be
    /// prefetched, each once, by rank around the anchor.
    pub open spec fn candidate_order(&self, c: Seq<usize>) -> bool {
        &&& forall|j: int|
            0 <= j < c.len() ==> self.window_start() <= (#[trigger] c[j]) < self.window_end()
                && self.can_prefetch_spec(c[j] as int)
        &&& forall|x: int|
            self.window_start() <= x < self.window_end() && #[trigger] self.can_prefetch_spec(x) ==> exists|j: int|
                0 <= j < c.len() && c[j] == x
        &&& forall|j: int, k: int|
            0 <= j < k < c.len() ==> prefetch_rank(#[trigger] c[j] as int, self.prefetch_anchor()) < prefetch_rank(
                #[trigger] c[k] as int,
                self.prefetch_anchor(),
            )
    }

    /// Rows of the visible window whose story has comments that are neither
    /// cached nor in flight, closest to the selection first (the upper row
    /// first on ties).
    pub fn prefetch_story_candidates(&self) -> (r: Vec<usize>)
        ensures
            self.candidate_order(r@),
    {
        let len = self.stories.len();
        let mut out: Vec<usize> = Vec::new();
        if len == 0 {
            return out;
        }
        let offset = if self.story_list_state.offset < len { self.story_list_state.offset } else { len };
        let page_size = if self.story_page_size == 0 { 1 } else { self.story_page_size };
        let end = if page_size < len - offset { offset + page_size } else { len };
        let selected = match self.story_list_state.selected {
            Some(s) => s,
            None => offset,
        };
        let ghost anchor = self.prefetch_anchor();
        assert(anchor == selected as int);
        assert(offset == self.window_start() && end == self.window_end());
        // Grow [left, right) outwards from the selection, clamped to the window.
        let start = if selected < offset {
            offset
        } else if selected >= end {
            end
        } else {
            selected + 1
        };
        let mut left: usize = start;
        let mut right: usize = start;
        while left > offset || right < end
            invariant
                offset <= left <= start <= right <= end,
                end <= len,
                len == self.stories@.len(),
                offset == self.window_start(),
                end == self.window_end(),
                anchor == selected as int,
                start == (if selected < offset {
                    offset
                } else if selected >= end {
                    end
                } else {
                    (selected + 1) as usize
                }),
                forall|j: int|
                    0 <= j < out@.len() ==> left <= (#[trigger] out@[j]) < right && self.can_prefetch_spec(
                        out@[j] as int,
                    ),
                forall|x: int|
                    left <= x < right && #[trigger] self.can_prefetch_spec(x) ==> exists|j: int|
                        0 <= j < out@.len() && out@[j] == x,
                forall|j: int, k: int|
                    0 <= j < k < out@.len() ==> prefetch_rank(#[trigger] out@[j] as int, anchor) < prefetch_rank(
                        #[trigger] out@[k] as int,
                        anchor,
                    ),
                left > offset ==> forall|j: int|
                    0 <= j < out@.len() ==> prefetch_rank(#[trigger] out@[j] as int, anchor) < prefetch_rank(
                        left - 1,
                        anchor,
                    ),
                right < end ==> forall|j: int|
                    0 <= j < out@.len() ==> prefetch_rank(#[trigger] out@[j] as int, anchor) < prefetch_rank(
                        right as int,
                        anchor,
                    ),
            decreases (left - offset) + (end - right),
        {
            let take_left = if left > offset && right < end {
                selected - (left - 1) <= right - selected
            } else {
                left > offset
            };
            let idx = if take_left { left - 1 } else { right };
            let ghost prev = out@;
            let ghost l0 = left;
            let ghost r0 = right;
            let pushed = self.can_prefetch_story(idx);
            if pushed {
                out.push(idx);
            }
            if take_left {
                left = left - 1;
            } else {
                right = right + 1;
            }
            proof {
                assert forall|x: int| left <= x < right && #[trigger] self.can_prefetch_spec(x) implies exists|j: int|
                    0 <= j < out@.len() && out@[j] == x by {
                    if x == idx as int {
                        assert(out@[prev.len() as int] == x);
                    } else {
                        let j = choose|j: int| 0 <= j < prev.len() && prev[j] == x;
                        assert(out@[j] == x);
                    }
                }
            }
        }
        out
    }

    fn start_comment_prefetch(&mut self, idx: usize)
        requires
            idx < old(self).stories@.len(),
        ensures
            *final(self) == (App {
                comment_prefetch_generations: final(self).comment_prefetch_generations,
                comments_prefetch_generation: final(self).comments_prefetch_generation,
                effects: final(self).effects,
                ..*old(self)
            }),
            final(self).comments_prefetch_generation == next_generation(old(self).comments_prefetch_generation),
            final(self).comment_prefetch_generations@ == old(self).comment_prefetch_generations@.insert(
                old(self).stories@[idx as int].id,
                final(self).comments_prefetch_generation,
            ),
            final(self).effects@.len() == old(self).effects@.len() + 1,
            final(self).effects@.subrange(0, old(self).effects@.len() as int) == old(self).effects@,
            final(self).effects@.last() matches Effect::PrefetchComments { generation, story_id, kids }
                && generation == final(self).comments_prefetch_generation && story_id == old(self).stories@[idx as int].id
                && kids@ == old(self).stories@[idx as int].kids@,
    {
        self.comments_prefetch_generation = bump(self.comments_prefetch_generation);
        let generation = self.comments_prefetch_generation;
        let story_id = self.stories[idx].id;
        let kids = clone_ids(&self.stories[idx].kids);
        self.comment_prefetch_generations.insert(story_id, generation);
        let ghost before = self.effects@;
        self.effects.push(Effect::PrefetchComments { generation, story_id, kids });
        assert(self.effects@.subrange(0, before.len() as int) =~= before);
    }

    /// Opens the comments of the selected story: shown at once when already
    /// current or prefetched, awaited when a prefetch is in flight, fetched
    /// otherwise.
    pub fn open_comments_for_selected_story(&mut self)
        ensures
            open_comments_post(*old(self), *final(self)),
    {
        let idx = match self.story_list_state.selected {
            Some(s) => s,
            None => 0,
        };
        if idx >= self.stories.len() {
            return;
        }
        let story = self.stories[idx].duplicate();
        let same_and_loaded = match &self.current_story {
            Some(s) => s.id == story.id,
            None => false,
        } && self.comment_tree.len() > 0;
        if same_and_loaded {
            self.view = Screen::Comments;
            return;
        }
        if let Some(comments) = self.prefetched_comments_cache.remove(&story.id) {
            self.apply_comments_for_story(story, comments, true);
            return;
        }
        if self.comment_prefetch_generations.contains_key(&story.id) {
            self.awaiting_prefetch_story_id = Some(story.id);
            self.view = Screen::Comments;
            self.last_error = None;
            let is_same_story = match &self.current_story {
                Some(s) => s.id == story.id,
                None => false,
            };
            self.current_story = Some(story);
            self.comment_loading = true;
            if !is_same_story {
                self.reset_comment_state();
            }
            return;
        }
        self.load_comments_for_story(story, true);
    }

    /// Fetches a story's comments under a new generation.
    pub fn load_comments_for_story(&mut self, story: Story, switch_view: bool)
        ensures
            final(self).comments_generation == next_generation(old(self).comments_generation),
            final(self).comment_loading,
            final(self).awaiting_prefetch_story_id is None,
            final(self).last_error is None,
            final(self).current_story matches Some(s) && s@ == story@,
            switch_view ==> final(self).view == Screen::Comments,
            !switch_view ==> final(self).view == old(self).view,
            final(self).effects@.len() == old(self).effects@.len() + 1,
            final(self).effects@.subrange(0, old(self).effects@.len() as int) == old(self).effects@,
            final(self).effects@.last() matches Effect::LoadComments { generation, story_id, kids }
                && generation == final(self).comments_generation && story_id == story.id && kids@
                == story.kids@,
            !(old(self).current_story matches Some(c) && c.id == story.id) ==> final(self).comment_tree@.len() == 0
                && final(self).comment_list@.len() == 0 && final(self).comment_children_in_flight@ == Map::<
                u64,
                u64,
            >::empty(),
    {
        self.comments_generation = bump(self.comments_generation);
        let generation = self.comments_generation;
        self.awaiting_prefetch_story_id = None;
        if switch_view {
            self.view = Screen::Comments;
        }
        self.last_error = None;
        let is_same_story = match &self.current_story {
            Some(s) => s.id == story.id,
            None => false,
        };
        let story_id = story.id;
        let kids = clone_ids(&story.kids);
        self.current_story = Some(story);
        self.comment_loading = true;
        if !is_same_story {
            self.reset_comment_state();
        }
        let ghost before = self.effects@;
        self.effects.push(Effect::LoadComments { generation, story_id, kids });
        assert(self.effects@.subrange(0, before.len() as int) =~= before);
    }

    /// Shows a loaded comment tree for `story`, with the default levels
    /// expanded and the first comment selected.
    pub fn apply_comments_for_story(&mut self, story: Story, comments: Vec<CommentNode>, switch_view: bool)
        ensures
            final(self).current_story matches Some(s) && s@ == story@,
            forest_view(final(self).comment_tree@) == crate::tree::expand_forest(
                forest_view(comments@),
                (if old(self).default_visible_levels == 0 { 0 } else { (old(self).default_visible_levels - 1) as usize }),
            ),
            comment_views(final(self).comment_list@) == flatten(forest_view(final(self).comment_tree@)),
            !final(self).comment_loading,
            final(self).awaiting_prefetch_story_id is None,
            final(self).last_error is None,
            final(self).comment_children_in_flight@ == Map::<u64, u64>::empty(),
            final(self).comments_generation == old(self).comments_generation,
            final(self).stories_generation == old(self).stories_generation,
            final(self).effects == old(self).effects,
            final(self).prefetched_comments_cache == old(self).prefetched_comments_cache,
            final(self).comment_prefetch_generations == old(self).comment_prefetch_generations,
            switch_view ==> final(self).view == Screen::Comments,
            !switch_view ==> final(self).view == old(self).view,
    {
        if switch_view {
            self.view = Screen::Comments;
        }
        self.awaiting_prefetch_story_id = None;
        self.comment_loading = false;
        self.comment_children_in_flight.clear();
        self.last_error = None;
        self.current_story = Some(story);
        self.comment_tree = comments;
        self.apply_default_comment_expansion();
        self.rebuild_comment_list(None);
        self.comment_list_state.select(Some(0));
        self.comment_line_offset = 0;
        self.comment_list_state.offset = 0;
    }

    fn apply_default_comment_expansion(&mut self)
        ensures
            forest_view(final(self).comment_tree@) == crate::tree::expand_forest(
                forest_view(old(self).comment_tree@),
                (if old(self).default_visible_levels == 0 { 0 } else { (old(self).default_visible_levels - 1) as usize }),
            ),
            *final(self) == (App { comment_tree: final(self).comment_tree, ..*old(self) }),
    {
        let levels = self.default_visible_levels.saturating_sub(1);
        apply_default_expansion(&mut self.comment_tree, levels);
    }

    /// Rebuilds the visible comment list from the tree, keeping the
    /// selection on `preserve_comment_id` when it is still shown.
    fn rebuild_comment_list(&mut self, preserve_comment_id: Option<u64>)
        ensures
            comment_views(final(self).comment_list@) == flatten(forest_view(old(self).comment_tree@)),
            final(self).comment_item_heights@.len() == 0,
            *final(self) == (App {
                comment_list: final(self).comment_list,
                comment_item_heights: final(self).comment_item_heights,
                comment_list_state: final(self).comment_list_state,
                ..*old(self)
            }),
    {
        self.comment_list = flatten_comment_tree(&self.comment_tree);
        self.comment_item_heights.clear();
        let id = match preserve_comment_id {
            Some(id) => id,
            None => {
                return;
            },
        };
        if let Some(idx) = position_of_comment(&self.comment_list, id) {
            self.comment_list_state.select(Some(idx));
        }
    }

    fn reset_comment_state(&mut self)
        ensures
            final(self).comment_tree@.len() == 0,
            final(self).comment_list@.len() == 0,
            final(self).comment_children_in_flight@ == Map::<u64, u64>::empty(),
            final(self).current_story == old(self).current_story,
            final(self).view == old(self).view,
            final(self).comment_loading == old(self).comment_loading,
            final(self).awaiting_prefetch_story_id == old(self).awaiting_prefetch_story_id,
            final(self).last_error == old(self).last_error,
            final(self).comments_generation == old(self).comments_generation,
            final(self).effects == old(self).effects,
    {
        self.comment_tree.clear();
        self.comment_children_in_flight.clear();
        self.comment_list.clear();
        self.comment_item_heights.clear();
        self.comment_line_offset = 0;
        self.comment_list_state.select(Some(0));
        self.comment_list_state.offset = 0;
    }

    pub open spec fn selected_story_spec(&self) -> Option<Story> {
        if self.selected_index() < self.stories@.len() {
            Some(self.stories@[self.selected_index()])
        } else {
            None
        }
    }

    /// The selected story, if any.
    pub fn selected_story(&self) -> (r: Option<&Story>)
        ensures
            ({
                let idx = match self.story_list_state.selected {
                    Some(s) => s as int,
                    None => 0,
                };
                if idx < self.stories@.len() {
                    r == Some(&self.stories@[idx])
                } else {
                    r is None
                }
            }),
    {
        let idx = match self.story_list_state.selected {
            Some(s) => s,
            None => 0,
        };
        if idx < self.stories.len() {
            Some(&self.stories[idx])
        } else {
            None
        }
    }

    pub fn is_comment_prefetching_for_story(&self, story_id: u64) -> (r: bool)
        ensures
            r == self.comment_prefetch_generations@.contains_key(story_id),
    {
        self.comment_prefetch_generations.contains_key(&story_id)
    }

    /// Removes and returns the effects requested since the last call.
    pub fn take_effects(&mut self) -> (r: Vec<Effect>)
        ensures
            r@ == old(self).effects@,
            final(self).effects@.len() == 0,
    {
        let mut out: Vec<Effect> = Vec::new();
        std::mem::swap(&mut self.effects, &mut out);
        out
    }

    /// Handles a key press at time `now_ms`.
    pub fn handle_key(&mut self, key: KeyInput, now_ms: u64)
        ensures
            ({
                let mid = App {
                    now_ms,
                    last_user_activity_ms: now_ms,
                    input: key_state_spec(old(self).input, key),
                    ..*old(self)
                };
                match key_action_spec(old(self).input, key) {
                    Some(action) => action_post(mid, *final(self), action),
                    None => *final(self) == mid,
                }
            }),
    {
        self.note_user_activity(now_ms);
        if let Some(action) = self.input.on_key(key) {
            self.handle_action(action);
        }
    }

    /// Applies a user action.
    pub fn handle_action(&mut self, action: Action)
        ensures
            action_post(*old(self), *final(self), action),
    {
        if action == Action::ToggleHelp {
            self.help_visible = !self.help_visible;
            return;
        }
        if self.help_visible {
            if action == Action::BackOrQuit {
                self.help_visible = false;
            }
            return;
        }
        match (self.view, action) {
            (Screen::Stories, Action::BackOrQuit) => {
                self.quit_requested = true;
            },
            (Screen::Comments, Action::BackOrQuit) => {
                self.view = Screen::Stories;
                self.maybe_prefetch_comments();
            },
            (Screen::Stories, Action::Refresh) => self.refresh_stories(),
            (Screen::Comments, Action::Refresh) => self.refresh_comments(),
            (Screen::Stories, Action::Enter) => self.open_comments_for_selected_story(),
            (Screen::Stories, Action::OpenComments) => self.open_comments_for_selected_story(),
            (Screen::Stories, Action::Expand) => self.open_comments_for_selected_story(),
            (Screen::Stories, Action::OpenPrimaryBrowser) => self.open_selected_story_in_browser(),
            (Screen::Stories, Action::OpenSecondaryBrowser) => self.open_selected_story_comments_in_browser(),
            (Screen::Comments, Action::OpenPrimaryBrowser) => self.open_current_story_comments_in_browser(),
            (Screen::Comments, Action::OpenSecondaryBrowser) => self.open_current_story_in_browser(),
            (Screen::Stories, Action::MoveDown) => {
                let len = self.stories.len();
                move_selection_down(&mut self.story_list_state, len);
                ensure_visible(&mut self.story_list_state, len, self.story_page_size);
                self.maybe_prefetch_stories();
                self.maybe_prefetch_comments();
            },
            (Screen::Stories, Action::MoveUp) => {
                let len = self.stories.len();
                move_selection_up(&mut self.story_list_state);
                ensure_visible(&mut self.story_list_state, len, self.story_page_size);
                self.maybe_prefetch_comments();
            },
            (Screen::Stories, Action::PageDown) => {
                let len = self.stories.len();
                page_down(&mut self.story_list_state, len, self.story_page_size);
                self.maybe_prefetch_stories();
                self.maybe_prefetch_comments();
            },
            (Screen::Stories, Action::PageUp) => {
                page_up(&mut self.story_list_state, self.story_page_size);
                self.maybe_prefetch_comments();
            },
            (Screen::Stories, Action::GoTop) => {
                self.story_list_state.select(Some(0));
                self.story_list_state.offset = 0;
                self.maybe_prefetch_comments();
            },
            (Screen::Stories, Action::GoBottom) => {
                let len = self.stories.len();
                if len > 0 {
                    self.story_list_state.select(Some(len - 1));
                    ensure_visible(&mut self.story_list_state, len, self.story_page_size);
                    self.maybe_prefetch_stories();
                    self.maybe_prefetch_comments();
                }
            },
            (Screen::Comments, Action::MoveDown) => {
                let len = self.comment_list.len();
                move_selection_down(&mut self.comment_list_state, len);
                self.ensure_comment_line_offset();
            },
            (Screen::Comments, Action::MoveUp) => {
                move_selection_up(&mut self.comment_list_state);
                self.ensure_comment_line_offset();
            },
            (Screen::Comments, Action::PageDown) => {
                let len = self.comment_list.len();
                page_down_comment_list(
                    &mut self.comment_list_state,
                    len,
                    self.comment_page_size,
                    &mut self.comment_line_offset,
                    &self.comment_item_heights,
                    self.comment_viewport_height,
                );
            },
            (Screen::Comments, Action::PageUp) => {
                let len = self.comment_list.len();
                page_up_comment_list(
                    &mut self.comment_list_state,
                    len,
                    self.comment_page_size,
                    &mut self.comment_line_offset,
                    &self.comment_item_heights,
                    self.comment_viewport_height,
                );
            },
            (Screen::Comments, Action::GoTop) => {
                self.comment_list_state.select(Some(0));
                self.ensure_comment_line_offset();
            },
            (Screen::Comments, Action::GoBottom) => {
                let len = self.comment_list.len();
                if len > 0 {
                    self.comment_list_state.select(Some(len - 1));
                    self.ensure_comment_line_offset();
                }
            },
            (Screen::Comments, Action::Enter) => self.toggle_selected_comment_collapse(),
            (Screen::Comments, Action::Collapse) => self.collapse_selected_comment(),
            (Screen::Comments, Action::Expand) => self.expand_selected_comment(),
            (Screen::Comments, Action::ToggleCollapse) => self.toggle_selected_comment_collapse(),
            (_, _) => {},
        }
    }

    fn open_selected_story_in_browser(&mut self)
        ensures
            open_url_post(
                *old(self),
                *final(self),
                match old(self).selected_story_spec() {
                    Some(s) => Some(story_url_spec(s)),
                    None => None,
                },
            ),
    {
        let url = match self.selected_story() {
            Some(story) => story_url(story),
            None => {
                self.last_error = Some(message("no selected story"));
                return;
            },
        };
        let ghost before = self.effects@;
        self.effects.push(Effect::OpenUrl { url });
        assert(self.effects@.subrange(0, before.len() as int) =~= before);
    }

    fn open_selected_story_comments_in_browser(&mut self)
        ensures
            open_url_post(
                *old(self),
                *final(self),
                match old(self).selected_story_spec() {
                    Some(s) => Some(item_page_url(s.id)),
                    None => None,
                },
            ),
    {
        let url = match self.selected_story() {
            Some(story) => comments_url(story.id),
            None => {
                self.last_error = Some(message("no selected story"));
                return;
            },
        };
        let ghost before = self.effects@;
        self.effects.push(Effect::OpenUrl { url });
        assert(self.effects@.subrange(0, before.len() as int) =~= before);
    }

    fn open_current_story_in_browser(&mut self)
        ensures
            open_url_post(
                *old(self),
                *final(self),
                match old(self).current_story {
                    Some(s) => Some(story_url_spec(s)),
                    None => None,
                },
            ),
    {
        let url = match &self.current_story {
            Some(story) => story_url(story),
            None => {
                self.last_error = Some(message("no current story"));
                return;
            },
        };
        let ghost before = self.effects@;
        self.effects.push(Effect::OpenUrl { url });
        assert(self.effects@.subrange(0, before.len() as int) =~= before);
    }

    fn open_current_story_comments_in_browser(&mut self)
        ensures
            open_url_post(
                *old(self),
                *final(self),
                match old(self).current_story {
                    Some(s) => Some(item_page_url(s.id)),
                    None => None,
                },
            ),
    {
        let url = match &self.current_story {
            Some(story) => comments_url(story.id),
            None => {
                self.last_error = Some(message("no current story"));
                return;
            },
        };
        let ghost before = self.effects@;
        self.effects.push(Effect::OpenUrl { url });
        assert(self.effects@.subrange(0, before.len() as int) =~= before);
    }

    /// Starts the on-demand fetch of a comment's children: marks it loading,
    /// expands it, and requests exactly that node's immediate children one
    /// level deeper.
    pub fn start_loading_comment_children(&mut self, parent_id: u64)
        ensures
            ({
                let f = forest_view(old(self).comment_tree@);
                let wants = old(self).wants_children(parent_id);
                &&& wants ==> children_requested(*old(self), *final(self), parent_id)
                &&& !wants ==> final(self).effects == old(self).effects && final(self).comment_children_in_flight == old(self).comment_children_in_flight
                &&& !wants ==> final(self).comment_tree == old(self).comment_tree
                &&& !old(self).comment_children_in_flight@.contains_key(parent_id) && !contains_id(f, parent_id)
                    ==> (final(self).last_error matches Some(m) && m@ == not_found_message(parent_id))
            }),
    {
        if self.comment_children_in_flight.contains_key(&parent_id) {
            return;
        }
        let info = match comment_info_in_tree(&self.comment_tree, parent_id) {
            Some(info) => info,
            None => {
                self.last_error = Some(comment_not_found(parent_id));
                return;
            },
        };
        let (parent_depth, kids, children_loaded, children_loading) = info;
        if kids.len() == 0 || children_loaded || children_loading {
            return;
        }
        self.comment_children_generation = bump(self.comment_children_generation);
        let generation = self.comment_children_generation;
        self.comment_children_in_flight.insert(parent_id, generation);
        let _ = set_children_loading_in_tree(&mut self.comment_tree, parent_id, true);
        let _ = set_collapse_in_tree(&mut self.comment_tree, parent_id, false);
        self.rebuild_comment_list(Some(parent_id));
        self.ensure_comment_line_offset();
        let depth = parent_depth.saturating_add(1);
        let ghost before = self.effects@;
        self.effects.push(Effect::LoadCommentChildren { generation, parent_id, kids, depth });
        assert(self.effects@.subrange(0, before.len() as int) =~= before);
    }

    /// Collapses the selected comment when it has children and is expanded.
    pub fn collapse_selected_comment(&mut self)
        ensures
            collapse_post(*old(self), *final(self)),
    {
        let selected = match self.comment_list_state.selected {
            Some(s) => s,
            None => {
                return;
            },
        };
        if selected >= self.comment_list.len() {
            return;
        }
        let comment = &self.comment_list[selected];
        if comment.kids.len() == 0 || comment.collapsed {
            return;
        }
        let id = comment.id;
        if set_collapse_in_tree(&mut self.comment_tree, id, true).is_none() {
            self.last_error = Some(comment_not_found(id));
            return;
        }
        self.rebuild_comment_list(Some(id));
        self.ensure_comment_line_offset();
    }

    /// Expands the selected comment, fetching its children first when they
    /// are neither loaded nor loading.
    pub fn expand_selected_comment(&mut self)
        ensures
            expand_post(*old(self), *final(self)),
    {
        let selected = match self.comment_list_state.selected {
            Some(s) => s,
            None => {
                return;
            },
        };
        if selected >= self.comment_list.len() {
            return;
        }
        let comment = &self.comment_list[selected];
        if comment.kids.len() == 0 {
            return;
        }
        let id = comment.id;
        let (kids_len, children_loaded, children_loading) = match comment_info_in_tree(&self.comment_tree, id) {
            Some(info) => (info.1.len(), info.2, info.3),
            None => {
                self.last_error = Some(comment_not_found(id));
                return;
            },
        };
        if !self.comment_children_in_flight.contains_key(&id) && kids_len > 0 && !children_loaded
            && !children_loading {
            self.start_loading_comment_children(id);
            return;
        }
        let _ = set_collapse_in_tree(&mut self.comment_tree, id, false);
        self.rebuild_comment_list(Some(id));
        self.ensure_comment_line_offset();
    }

    /// Collapses an expanded selected comment, or expands a collapsed one.
    pub fn toggle_selected_comment_collapse(&mut self)
        ensures
            toggle_post(*old(self), *final(self)),
    {
        let selected = match self.comment_list_state.selected {
            Some(s) => s,
            None => {
                return;
            },
        };
        if selected >= self.comment_list.len() {
            return;
        }
        let comment = &self.comment_list[selected];
        if comment.kids.len() == 0 {
            return;
        }
        if comment.collapsed {
            self.expand_selected_comment();
        } else {
            self.collapse_selected_comment();
        }
    }

    /// Applies a background result; one whose generation no longer matches
    /// the live counter of its kind changes nothing.
    pub fn handle_app_event(&mut self, event: AppEvent)
        ensures
            stale_event(*old(self), event) ==> *final(self) == *old(self),
            !stale_event(*old(self), event) ==> (event matches AppEvent::StoriesLoaded { generation, mode, story_ids, stories } ==> {
                &&& !final(self).story_loading
                &&& !final(self).prefetch_in_flight
                &&& final(self).last_error is None
                &&& final(self).stories_generation == old(self).stories_generation
                &&& final(self).story_ids@ == (match story_ids {
                    Some(ids) => ids@,
                    None => old(self).story_ids@,
                })
                &&& story_views(final(self).stories@) == (match mode {
                    StoriesLoadMode::Replace => story_views(stories@),
                    StoriesLoadMode::Append => story_views(old(self).stories@) + story_views(stories@),
                })
                &&& mode == StoriesLoadMode::Replace ==> final(self).prefetched_comments_cache@.len() == 0
                &&& mode == StoriesLoadMode::Replace ==> final(self).pending_story_selection_id is None
                &&& mode == StoriesLoadMode::Replace ==> (final(self).story_list_state.selected matches Some(i) && (
                    if old(self).pending_story_selection_id is Some && exists|j: int|
                        0 <= j < final(self).stories@.len() && final(self).stories@[j].id
                            == old(self).pending_story_selection_id.unwrap() {
                        i < final(self).stories@.len() && final(self).stories@[i as int].id
                            == old(self).pending_story_selection_id.unwrap() && forall|j: int|
                            0 <= j < i ==> (#[trigger] final(self).stories@[j]).id
                                != old(self).pending_story_selection_id.unwrap()
                    } else {
                        i == 0
                    }))
                &&& mode == StoriesLoadMode::Replace ==> forall|k: u64|
                    #[trigger] final(self).comment_prefetch_generations@.contains_key(k) ==> exists|j: int|
                        0 <= j < final(self).stories@.len() && final(self).stories@[j].id == k
                &&& mode == StoriesLoadMode::Replace ==> forall|k: u64|
                    #[trigger] final(self).comment_prefetch_generations@.contains_key(k) ==> exists|n: nat|
                        1 <= n && final(self).comment_prefetch_generations@[k] == nth_generation(
                            old(self).comments_prefetch_generation,
                            n,
                        )
                &&& final(self).effects@.subrange(0, old(self).effects@.len() as int) == old(self).effects@
                &&& final(self).story_ids@.len() > 0 && final(self).stories@.len() > 0 ==> final(self).effects@.len()
                    > old(self).effects@.len() && (final(self).effects@[old(self).effects@.len() as int] matches Effect::SaveStoryList {
                    story_ids: saved_ids,
                    stories: saved,
                } && saved_ids@ == final(self).story_ids@ && story_views(saved@) == story_views(final(self).stories@))
            }),
            !stale_event(*old(self), event) ==> (event matches AppEvent::CommentChildrenLoaded { generation, parent_id, children } ==> {
                &&& final(self).comment_children_in_flight@ == old(self).comment_children_in_flight@.remove(parent_id)
                &&& forest_view(final(self).comment_tree@) == edit_forest(
                    forest_view(old(self).comment_tree@),
                    parent_id,
                    NodeEdit::AttachChildren(forest_view(children@)),
                )
                &&& contains_id(forest_view(old(self).comment_tree@), parent_id) ==> comment_views(
                    final(self).comment_list@,
                ) == flatten(forest_view(final(self).comment_tree@))
                &&& !contains_id(forest_view(old(self).comment_tree@), parent_id) ==> final(self).last_error is Some
            }),
            !stale_event(*old(self), event) ==> (event matches AppEvent::CommentChildrenError { generation, parent_id, message } ==> {
                &&& final(self).comment_children_in_flight@ == old(self).comment_children_in_flight@.remove(parent_id)
                &&& forest_view(final(self).comment_tree@) == edit_forest(
                    edit_forest(
                        forest_view(old(self).comment_tree@),
                        parent_id,
                        NodeEdit::SetChildrenLoading(false),
                    ),
                    parent_id,
                    NodeEdit::SetCollapsed(true),
                )
                &&& final(self).last_error == Some(message)
                &&& comment_views(final(self).comment_list@) == flatten(forest_view(final(self).comment_tree@))
            }),
            !stale_event(*old(self), event) ==> (event matches AppEvent::CommentsPrefetched { generation, story_id, comments } ==> {
                let shown = old(self).awaiting_prefetch_story_id == Some(story_id) && old(self).current_story is Some;
                &&& shown ==> forest_view(final(self).comment_tree@) == crate::tree::expand_forest(
                    forest_view(comments@),
                    (if old(self).default_visible_levels == 0 { 0 } else { (old(self).default_visible_levels - 1) as usize }),
                ) && comment_views(final(self).comment_list@) == flatten(forest_view(final(self).comment_tree@))
                    && !final(self).comment_loading && final(self).awaiting_prefetch_story_id is None
                &&& !shown ==> final(self).prefetched_comments_cache@ == old(self).prefetched_comments_cache@.insert(
                    story_id,
                    comments,
                )
                &&& shown ==> final(self).comment_prefetch_generations@ == old(self).comment_prefetch_generations@.remove(
                    story_id,
                )
                &&& !(old(self).view == Screen::Stories && old(self).idle_spec() && !(old(self).story_loading
                    && old(self).stories@.len() == 0)) ==> final(self).comment_prefetch_generations@
                    == old(self).comment_prefetch_generations@.remove(story_id)
            }),
            !stale_event(*old(self), event) ==> (event matches AppEvent::CommentsLoaded { generation, story_id, comments } ==> {
                &&& forest_view(final(self).comment_tree@) == crate::tree::expand_forest(
                    forest_view(comments@),
                    (if old(self).default_visible_levels == 0 { 0 } else { (old(self).default_visible_levels - 1) as usize }),
                )
                &&& comment_views(final(self).comment_list@) == flatten(forest_view(final(self).comment_tree@))
                &&& !final(self).comment_loading
                &&& final(self).last_error is None
                &&& final(self).comment_children_in_flight@ == Map::<u64, u64>::empty()
            }),
            !stale_event(*old(self), event) ==> (event matches AppEvent::PrefetchError { generation, story_id, message } ==> {
                &&& old(self).awaiting_prefetch_story_id == Some(story_id) ==> final(self).last_error == Some(message)
                    && !final(self).comment_loading && final(self).awaiting_prefetch_story_id is None
                &&& old(self).awaiting_prefetch_story_id != Some(story_id) ==> final(self).last_error == old(self).last_error
                    && final(self).comment_loading == old(self).comment_loading
                    && final(self).awaiting_prefetch_story_id == old(self).awaiting_prefetch_story_id
                &&& !(old(self).view == Screen::Stories && old(self).idle_spec() && !(old(self).story_loading
                    && old(self).stories@.len() == 0)) ==> final(self).comment_prefetch_generations@
                    == old(self).comment_prefetch_generations@.remove(story_id) && final(self).effects == old(self).effects
            }),
            !stale_event(*old(self), event) ==> (event matches AppEvent::Error { generation, kind, message } ==> {
                &&& kind == LoadKind::Stories ==> *final(self) == (App {
                    story_loading: false,
                    prefetch_in_flight: false,
                    last_error: Some(message),
                    ..*old(self)
                })
                &&& kind == LoadKind::Comments ==> *final(self) == (App {
                    comment_loading: false,
                    last_error: Some(message),
                    ..*old(self)
                })
            }),
    {
        match event {
            AppEvent::StoriesLoaded { generation, mode, story_ids, stories } => {
                if generation != self.stories_generation {
                    return;
                }
                self.story_loading = false;
                self.prefetch_in_flight = false;
                self.last_error = None;
                if let Some(ids) = story_ids {
                    self.story_ids = ids;
                }
                match mode {
                    StoriesLoadMode::Replace => {
                        self.stories = stories;
                        self.prefetched_comments_cache.clear();
                        self.comment_prefetch_generations.clear();
                        let select_idx = match self.pending_story_selection_id {
                            Some(id) => match position_of_story(&self.stories, id) {
                                Some(i) => i,
                                None => 0,
                            },
                            None => 0,
                        };
                        self.pending_story_selection_id = None;
                        self.story_list_state.select(Some(select_idx));
                        self.story_list_state.offset = 0;
                    },
                    StoriesLoadMode::Append => {
                        let ghost before = self.stories@;
                        let mut more = stories;
                        self.stories.append(&mut more);
                        assert(story_views(self.stories@) =~= story_views(before) + story_views(
                            stories@,
                        ));
                    },
                }
                let len = self.stories.len();
                ensure_visible(&mut self.story_list_state, len, self.story_page_size);
                self.save_story_list_state_background();
                let ghost mid = *self;
                self.maybe_prefetch_comments();
                proof {
                    if mid.prefetch_ready() {
                        let c = choose|c: Seq<usize>| mid.candidate_order(c) && prefetch_started(
                            mid,
                            *self,
                            prefetch_picks(mid, c),
                        );
                        assert(self.effects@.subrange(0, mid.effects@.len() as int) == mid.effects@);
                    }
                    assert(self.effects@.subrange(0, mid.effects@.len() as int) =~= mid.effects@);
                    assert(self.effects@.subrange(0, old(self).effects@.len() as int) =~= old(self).effects@);
                    if self.story_ids@.len() > 0 && self.stories@.len() > 0 {
                        assert(self.effects@[old(self).effects@.len() as int] == self.effects@.subrange(
                            0,
                            mid.effects@.len() as int,
                        )[old(self).effects@.len() as int]);
                    }
                    if mode == StoriesLoadMode::Replace && mid.prefetch_ready() {
                        let c = choose|c: Seq<usize>| mid.candidate_order(c) && prefetch_started(
                            mid,
                            *self,
                            prefetch_picks(mid, c),
                        );
                        let p = prefetch_picks(mid, c);
                        lemma_prefetch_generations_keys(mid, p);
                        lemma_prefetch_generations_values(mid, p);
                        lemma_picks_prefetchable(mid, c);
                        assert forall|k: u64| #[trigger] self.comment_prefetch_generations@.contains_key(k) implies exists|j: int|
                            0 <= j < self.stories@.len() && self.stories@[j].id == k by {
                            assert(picks_story(mid, p, k));
                            let j = choose|j: int| 0 <= j < p.len() && mid.stories@[p[j] as int].id == k;
                            assert(mid.can_prefetch_spec(p[j] as int));
                            assert(self.stories@[p[j] as int].id == k);
                        }
                    }
                }
            },
            AppEvent::CommentsLoaded { generation, story_id, comments } => {
                if generation != self.comments_generation {
                    return;
                }
                let story = match &self.current_story {
                    Some(s) => {
                        if s.id != story_id {
                            return;
                        }
                        s.duplicate()
                    },
                    None => {
                        return;
                    },
                };
                self.apply_comments_for_story(story, comments, false);
            },
            AppEvent::CommentsPrefetched { generation, story_id, comments } => {
                match self.comment_prefetch_generations.get(&story_id) {
                    Some(g) => {
                        if *g != generation {
                            return;
                        }
                    },
                    None => {
                        return;
                    },
                }
                self.comment_prefetch_generations.remove(&story_id);
                if self.awaiting_prefetch_story_id == Some(story_id) {
                    let story = match &self.current_story {
                        Some(s) => s.duplicate(),
                        None => {
                            self.prefetched_comments_cache.insert(story_id, comments);
                            return;
                        },
                    };
                    self.apply_comments_for_story(story, comments, false);
                    return;
                }
                self.prefetched_comments_cache.insert(story_id, comments);
                self.maybe_prefetch_comments();
            },
            AppEvent::CommentChildrenLoaded { generation, parent_id, children } => {
                match self.comment_children_in_flight.get(&parent_id) {
                    Some(g) => {
                        if *g != generation {
                            return;
                        }
                    },
                    None => {
                        return;
                    },
                }
                self.comment_children_in_flight.remove(&parent_id);
                if attach_children_in_tree(&mut self.comment_tree, parent_id, children).is_none() {
                    self.last_error = Some(comment_not_found(parent_id));
                    return;
                }
                self.rebuild_comment_list(Some(parent_id));
                self.ensure_comment_line_offset();
            },
            AppEvent::CommentChildrenError { generation, parent_id, message } => {
                match self.comment_children_in_flight.get(&parent_id) {
                    Some(g) => {
                        if *g != generation {
                            return;
                        }
                    },
                    None => {
                        return;
                    },
                }
                self.comment_children_in_flight.remove(&parent_id);
                let _ = set_children_loading_in_tree(&mut self.comment_tree, parent_id, false);
                let _ = set_collapse_in_tree(&mut self.comment_tree, parent_id, true);
                self.last_error = Some(message);
                self.rebuild_comment_list(Some(parent_id));
            },
            AppEvent::Error { generation, kind, message } => match kind {
                LoadKind::Stories => {
                    if generation != self.stories_generation {
                        return;
                    }
                    self.story_loading = false;
                    self.prefetch_in_flight = false;
                    self.last_error = Some(message);
                },
                LoadKind::Comments => {
                    if generation != self.comments_generation {
                        return;
                    }
                    self.comment_loading = false;
                    self.last_error = Some(message);
                },
            },
            AppEvent::PrefetchError { generation, story_id, message } => {
                match self.comment_prefetch_generations.get(&story_id) {
                    Some(g) => {
                        if *g != generation {
                            return;
                        }
                    },
                    None => {
                        return;
                    },
                }
                self.comment_prefetch_generations.remove(&story_id);
                if self.awaiting_prefetch_story_id == Some(story_id) {
                    self.awaiting_prefetch_story_id = None;
                    self.comment_loading = false;
                    self.last_error = Some(message);
                }
                self.maybe_prefetch_comments();
            },
        }
    }
}

} // verus!
