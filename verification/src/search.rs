//! The input editor's search menus: byte-safe truncation of a query, and
//! the inert surface of the AI context menu, the AI query matcher and the
//! notebook embedding search.
use std::sync::Arc;
use vstd::prelude::*;
use vstd::string::StringSliceAdditionalSpecFns;
use vstd::utf8::{
    decode_utf8, decode_utf8_split, encode_utf8, encode_utf8_decode_utf8, encode_utf8_valid_utf8,
    is_char_boundary, is_char_boundary_start_end_of_seq,
};

verus! {

broadcast use encode_utf8_valid_utf8;

// ---------------------------------------------------------------------
// Byte-safe truncation
// ---------------------------------------------------------------------

/// `r` is the largest character boundary of `bytes` at or before `idx`;
/// past the end, it is the length.
pub open spec fn is_floor_boundary(bytes: Seq<u8>, idx: int, r: int) -> bool {
    if idx >= bytes.len() {
        r == bytes.len()
    } else {
        &&& 0 <= r <= idx
        &&& is_char_boundary(bytes, r)
        &&& forall|j: int| r < j <= idx ==> !#[trigger] is_char_boundary(bytes, j)
    }
}

/// Find the largest valid character boundary at or before the given byte index.
pub fn floor_char_boundary(original_string: &str, idx: usize) -> (r: usize)
    ensures
        is_floor_boundary(original_string.spec_bytes(), idx as int, r as int),
{
    let len = original_string.as_bytes().len();
    if idx >= len {
        len
    } else {
        let ghost bytes = original_string.spec_bytes();
        let mut curr = idx;
        while curr > 0 && !original_string.is_char_boundary(curr)
            invariant
                bytes == original_string.spec_bytes(),
                curr <= idx < bytes.len(),
                forall|j: int| curr < j <= idx ==> !#[trigger] is_char_boundary(bytes, j),
            decreases curr,
        {
            curr -= 1;
        }
        proof {
            if curr == 0 {
                is_char_boundary_start_end_of_seq(bytes);
            }
        }
        curr
    }
}

/// `String::truncate`: keeps the first `new_len` bytes of `s`. It panics
/// unless `new_len` is a character boundary, which `requires` rules out.
#[verifier::external_body]
fn truncate_string(s: &mut String, new_len: usize)
    requires
        is_char_boundary(encode_utf8(old(s)@), new_len as int),
    ensures
        encode_utf8(final(s)@) == encode_utf8(old(s)@).take(new_len as int),
{
    s.truncate(new_len)
}

/// Safely truncate a string at the given byte index, ensuring we don't split
/// UTF-8 characters: the string keeps the bytes up to the largest character
/// boundary at or before `new_len`, that is, a prefix of its characters.
pub fn safe_truncate(s: &mut String, new_len: usize)
    ensures
        new_len >= encode_utf8(old(s)@).len() ==> final(s)@ == old(s)@,
        new_len < encode_utf8(old(s)@).len() ==> is_floor_boundary(
            encode_utf8(old(s)@),
            new_len as int,
            encode_utf8(final(s)@).len() as int,
        ),
        encode_utf8(final(s)@) == encode_utf8(old(s)@).take(encode_utf8(final(s)@).len() as int),
        final(s)@ == old(s)@.take(final(s)@.len() as int),
{
    if new_len >= s.as_str().as_bytes().len() {
        proof {
            assert(encode_utf8(s@).take(encode_utf8(s@).len() as int) =~= encode_utf8(s@));
        }
        return ;
    }
    let safe_len = floor_char_boundary(s.as_str(), new_len);
    let ghost before = s@;
    let ghost bytes = encode_utf8(before);
    truncate_string(s, safe_len);
    proof {
        let k = safe_len as int;
        assert(encode_utf8(s@).len() == k);
        decode_utf8_split(bytes, k);
        encode_utf8_decode_utf8(before);
        encode_utf8_decode_utf8(s@);
        assert(decode_utf8(bytes.take(k)) == s@);
        assert(bytes.take(k) =~= bytes.subrange(0, k));
        vstd::utf8::valid_utf8_split(bytes, k);
        let rest = decode_utf8(bytes.subrange(k, bytes.len() as int));
        assert(before =~= s@ + rest);
        assert(before.take(s@.len() as int) =~= s@);
    }
}

// ---------------------------------------------------------------------
// AI context menu (inert)
// ---------------------------------------------------------------------

/// The AI context menu. It has no categories, never renders and ignores
/// every input.
pub struct AIContextMenu;

impl Default for AIContextMenu {
    fn default() -> (r: Self) {
        AIContextMenu
    }
}

impl AIContextMenu {
    pub fn new3<A, B, C>(_a: A, _b: B, _c: C) -> (r: Self) {
        AIContextMenu
    }

    pub fn should_render<A>(&self, _app: A) -> (r: bool)
        ensures
            !r,
    {
        false
    }

    pub fn get_categories_for_mode<A, B, C, D, E>(_a: A, _b: B, _c: C, _d: D, _e: E) -> (r: Vec<
        AIContextMenuCategory,
    >)
        ensures
            r@.len() == 0,
    {
        Vec::new()
    }

    pub fn set_is_in_ambient_agent<A, B>(&mut self, _value: A, ctx: &mut B)
        ensures
            *final(ctx) == *old(ctx),
    {
    }

    pub fn set_is_shared_session_viewer<A, B>(&mut self, _value: A, ctx: &mut B)
        ensures
            *final(ctx) == *old(ctx),
    {
    }

    pub fn set_is_cli_agent_input<A, B>(&mut self, _value: A, ctx: &mut B)
        ensures
            *final(ctx) == *old(ctx),
    {
    }

    pub fn set_input_mode<A, B>(&mut self, _mode: A, ctx: &mut B)
        ensures
            *final(ctx) == *old(ctx),
    {
    }

    pub fn update_search_query<A, B>(&mut self, _query: A, ctx: &mut B)
        ensures
            *final(ctx) == *old(ctx),
    {
    }

    pub fn close<A>(&mut self, _ctx: A) {
    }

    pub fn reset_menu_state<A>(&mut self, _ctx: A) {
    }

    pub fn select_current_item<A>(&mut self, _ctx: A) {
    }

    pub fn handle_action<A, B>(&mut self, _action: &A, _ctx: B) {
    }
}

#[derive(Clone, Copy, Debug)]
pub enum AIContextMenuCategory {
    Default,
}

impl Default for AIContextMenuCategory {
    fn default() -> (r: Self)
        ensures
            r == AIContextMenuCategory::Default,
    {
        AIContextMenuCategory::Default
    }
}

#[derive(Clone, Debug)]
pub enum AIContextMenuEvent {
    Close { item_count: Option<usize>, query_length: usize },
    ResultAccepted {
        action: AIContextMenuSearchableAction,
        item_count: Option<usize>,
        query_length: usize,
    },
    CategorySelected { category: AIContextMenuCategory },
}

#[derive(Clone, Debug)]
pub enum AIContextMenuAction {
    Default,
    Prev,
    Next,
}

impl Default for AIContextMenuAction {
    fn default() -> (r: Self)
        ensures
            r == AIContextMenuAction::Default,
    {
        AIContextMenuAction::Default
    }
}

/// The menu's search over its sources (none).
#[derive(Clone, Debug)]
pub struct AIContextMenuSearch;

impl Default for AIContextMenuSearch {
    fn default() -> (r: Self) {
        AIContextMenuSearch
    }
}

/// No query is a valid search query for the inert menu.
pub fn is_valid_search_query<A, B, C>(_a: A, _b: B, _c: C) -> (r: bool)
    ensures
        !r,
{
    false
}

/// The mixer that would merge results of the menu's sources.
#[derive(Clone, Debug)]
pub struct AIContextMenuMixer;

impl Default for AIContextMenuMixer {
    fn default() -> (r: Self) {
        AIContextMenuMixer
    }
}

/// What accepting a result of the menu inserts.
#[derive(Clone, Debug)]
pub enum AIContextMenuSearchableAction {
    InsertText { text: String },
    InsertFilePath { file_path: String },
    InsertDriveObject { object_type: String, object_uid: String },
    InsertPlan { ai_document_uid: String },
    InsertConversation { conversation_id: String },
    InsertSkill { name: String },
}

// ---------------------------------------------------------------------
// AI query matching (inert)
// ---------------------------------------------------------------------

#[derive(Clone, Debug)]
pub struct FuzzyMatch;

impl Default for FuzzyMatch {
    fn default() -> (r: Self) {
        FuzzyMatch
    }
}

/// The characters of a query that a match covers.
#[derive(Clone, Debug)]
pub struct QueryTextMatchResultStub {
    pub matched_indices: Vec<usize>,
}

impl Default for QueryTextMatchResultStub {
    fn default() -> (r: Self)
        ensures
            r.matched_indices@.len() == 0,
    {
        QueryTextMatchResultStub { matched_indices: Vec::new() }
    }
}

#[derive(Clone, Debug)]
pub struct FuzzyMatchAIQueryResults {
    pub query_text_match_result: QueryTextMatchResultStub,
}

impl Default for FuzzyMatchAIQueryResults {
    fn default() -> (r: Self)
        ensures
            r.query_text_match_result.matched_indices@.len() == 0,
    {
        FuzzyMatchAIQueryResults { query_text_match_result: QueryTextMatchResultStub::default() }
    }
}

impl FuzzyMatchAIQueryResults {
    /// Nothing matches.
    pub fn try_match<A, B>(_query: A, _candidate: B) -> (r: Option<Self>)
        ensures
            r is None,
    {
        None
    }
}

// ---------------------------------------------------------------------
// Notebook embedding search (inert)
// ---------------------------------------------------------------------

#[derive(Clone, Debug)]
pub struct EmbeddingSearcher;

impl Default for EmbeddingSearcher {
    fn default() -> (r: Self) {
        EmbeddingSearcher
    }
}

/// What selecting a search result opens, by the object's sync id.
#[derive(Clone, Debug)]
pub enum EmbeddingSearchItemAction {
    AcceptWorkflow(String),
    AcceptNotebook(String),
}

#[derive(Clone, Debug)]
pub struct EmbeddingView;

impl Default for EmbeddingView {
    fn default() -> (r: Self) {
        EmbeddingView
    }
}

#[derive(Clone, Debug)]
pub enum EmbeddingSearchEvent {
    Close,
    ItemSelected { payload: Arc<EmbeddingSearchItemAction> },
}

/// The embedding search menu; it keeps no state.
pub struct EmbeddingSearchMenu;

impl Default for EmbeddingSearchMenu {
    fn default() -> (r: Self) {
        EmbeddingSearchMenu
    }
}

impl EmbeddingSearchMenu {
    pub fn reset_state<A>(&mut self, _ctx: A) {
    }

    pub fn set_embedding_space<A, B>(&mut self, _space: A, _ctx: B) {
    }
}

/// The menu's (only) action.
#[derive(Clone, Debug)]
pub struct StubAction;

impl Default for StubAction {
    fn default() -> (r: Self) {
        StubAction
    }
}

} // verus!
