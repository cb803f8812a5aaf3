//! The buffer engine: a registry of open documents addressed by numeric
//! identity, with byte-offset edits, a bounded edit history, overlapping
//! search and non-overlapping replace.
//!
//! `BufferManager` owns every buffer and its history. Identities are handed
//! out by a counter that starts at 1 and never goes back, so an identity is
//! never reused, not even after its buffer is closed. Callers receive
//! snapshot copies, never live handles.

use vstd::prelude::*;
use crate::clock::now_millis;
use crate::language::{detect_language, language_of};
use crate::text::{copy_bytes, opt_bytes};

verus! {

/// Why an engine operation failed.
#[derive(Debug, Clone, PartialEq, Eq)]
pub enum BufferError {
    /// No live buffer has the given identity.
    NotFound,
    /// An edit offset lies beyond the end of the content.
    InvalidRange,
    /// A save was requested but no path is available.
    MissingPath,
    /// Reading or writing the filesystem failed; carries the cause text.
    IoFailure(Vec<u8>),
}

/// One open document.
pub struct Buffer {
    /// The document text, addressed by byte offset.
    pub content: Vec<u8>,
    /// Where the document lives on disk, once it was opened from or saved to
    /// a path.
    pub path: Option<Vec<u8>>,
    /// Whether the content has diverged from the last save point.
    pub modified: bool,
    /// Creation time, in milliseconds since the Unix epoch.
    pub created_at: i64,
    /// Time of the last content change, never before `created_at`.
    pub modified_at: i64,
    /// Advisory UI state; not bounded by the content length.
    pub cursor_position: usize,
    /// Advisory UI state; not bounded by the content length.
    pub scroll_position: usize,
    /// The language tag inferred at creation time.
    pub language: Option<Vec<u8>>,
}

/// The mathematical value of a [`Buffer`].
#[verifier::ext_equal]
pub ghost struct BufferView {
    pub content: Seq<u8>,
    pub path: Option<Seq<u8>>,
    pub modified: bool,
    pub created_at: int,
    pub modified_at: int,
    pub cursor_position: int,
    pub scroll_position: int,
    pub language: Option<Seq<u8>>,
}

impl View for Buffer {
    type V = BufferView;

    open spec fn view(&self) -> BufferView {
        BufferView {
            content: self.content@,
            path: opt_bytes(self.path),
            modified: self.modified,
            created_at: self.created_at as int,
            modified_at: self.modified_at as int,
            cursor_position: self.cursor_position as int,
            scroll_position: self.scroll_position as int,
            language: opt_bytes(self.language),
        }
    }
}

impl BufferView {
    /// The one invariant a buffer carries: it was not modified before it was
    /// created.
    pub open spec fn wf(self) -> bool {
        self.created_at <= self.modified_at
    }
}

/// One recorded text replacement: the pre-edit byte offsets, the inserted
/// text, and when it was applied. Immutable once recorded.
pub struct BufferEdit {
    pub start: usize,
    pub end: usize,
    pub text: Vec<u8>,
    pub timestamp: i64,
}

/// The mathematical value of a [`BufferEdit`].
#[verifier::ext_equal]
pub ghost struct EditView {
    pub start: int,
    pub end: int,
    pub text: Seq<u8>,
    pub timestamp: int,
}

impl View for BufferEdit {
    type V = EditView;

    open spec fn view(&self) -> EditView {
        EditView {
            start: self.start as int,
            end: self.end as int,
            text: self.text@,
            timestamp: self.timestamp as int,
        }
    }
}

/// A read-only projection of a buffer, computed freshly at query time.
pub struct BufferInfo {
    pub id: usize,
    pub path: Option<Vec<u8>>,
    pub modified: bool,
    /// Byte length of the content at query time.
    pub size: usize,
    /// Line count of the content at query time.
    pub lines: usize,
    pub language: Option<Vec<u8>>,
    pub created_at: i64,
    pub modified_at: i64,
}

/// The mathematical value of a [`BufferInfo`].
#[verifier::ext_equal]
pub ghost struct InfoView {
    pub id: int,
    pub path: Option<Seq<u8>>,
    pub modified: bool,
    pub size: int,
    pub lines: int,
    pub language: Option<Seq<u8>>,
    pub created_at: int,
    pub modified_at: int,
}

impl View for BufferInfo {
    type V = InfoView;

    open spec fn view(&self) -> InfoView {
        InfoView {
            id: self.id as int,
            path: opt_bytes(self.path),
            modified: self.modified,
            size: self.size as int,
            lines: self.lines as int,
            language: opt_bytes(self.language),
            created_at: self.created_at as int,
            modified_at: self.modified_at as int,
        }
    }
}

/// A live buffer together with its identity and edit history.
pub struct BufferEntry {
    pub id: usize,
    pub buffer: Buffer,
    pub history: Vec<BufferEdit>,
}

/// How many edits a buffer's history retains, oldest evicted first.
pub const HISTORY_CAP: usize = 100;

/// The projection of a buffer under identity `id`, computed from the
/// buffer's current state.
pub open spec fn info_of(id: usize, b: BufferView) -> InfoView {
    InfoView {
        id: id as int,
        path: b.path,
        modified: b.modified,
        size: b.content.len() as int,
        lines: crate::text::line_count(b.content),
        language: b.language,
        created_at: b.created_at,
        modified_at: b.modified_at,
    }
}

/// The text a scan works on: the text itself for a case-sensitive scan, its
/// byte-wise ASCII lower case otherwise.
pub open spec fn folded(c: Seq<u8>, case_sensitive: bool) -> Seq<u8> {
    if case_sensitive {
        c
    } else {
        crate::text::lower(c)
    }
}

/// What a search returns: `ms` lists, in strictly ascending order, exactly
/// the byte offsets at which `ql` occurs in `cl`, each paired with the end
/// of its match.
pub open spec fn search_result(cl: Seq<u8>, ql: Seq<u8>, ms: Seq<(usize, usize)>) -> bool {
    &&& forall|k: int|
        0 <= k < ms.len() ==> crate::text::match_at(cl, ql, (#[trigger] ms[k]).0 as int) && ms[k].1
            == ms[k].0 + ql.len()
    &&& forall|k: int| 0 <= k < ms.len() - 1 ==> (#[trigger] ms[k]).0 < ms[k + 1].0
    &&& forall|p: int|
        crate::text::match_at(cl, ql, p) ==> exists|k: int|
            0 <= k < ms.len() && (#[trigger] ms[k]).0 == p
}

/// A history after appending one edit: the oldest entry is evicted once the
/// log would exceed [`HISTORY_CAP`], so only the most recent edits are
/// retained, oldest first.
pub open spec fn push_capped(h: Seq<EditView>, e: EditView) -> Seq<EditView> {
    let h2 = h.push(e);
    if h2.len() > HISTORY_CAP {
        h2.subrange(h2.len() - (HISTORY_CAP as int), h2.len() as int)
    } else {
        h2
    }
}

/// The registry of live buffers. Entries are kept in ascending identity
/// order; `next_id` is above every identity ever handed out. The fields are
/// exposed for specification; every operation requires the invariant
/// [`Self::wf`] and hands it back re-established.
pub struct BufferManager {
    pub entries: Vec<BufferEntry>,
    pub next_id: usize,
}

impl BufferManager {
    /// The registry invariant: identities strictly increase along the entry
    /// list, stay below `next_id`, every buffer is well formed and no history
    /// exceeds its cap.
    pub open spec fn wf(self) -> bool {
        &&& 1 <= self.next_id
        &&& forall|k: int|
            0 <= k < self.entries@.len() ==> (#[trigger] self.entries@[k]).id < self.next_id
        &&& forall|k1: int, k2: int|
            0 <= k1 < k2 < self.entries@.len() ==> (#[trigger] self.entries@[k1]).id < (
            #[trigger] self.entries@[k2]).id
        &&& forall|k: int|
            0 <= k < self.entries@.len() ==> (#[trigger] self.entries@[k]).buffer@.wf()
        &&& forall|k: int|
            0 <= k < self.entries@.len() ==> (#[trigger] self.entries@[k]).history@.len()
                <= HISTORY_CAP
    }

    /// The identity counter.
    pub open spec fn spec_next_id(self) -> int {
        self.next_id as int
    }

    /// Whether a live buffer has identity `id`.
    pub open spec fn has_buffer(self, id: usize) -> bool {
        exists|k: int| 0 <= k < self.entries@.len() && (#[trigger] self.entries@[k]).id == id
    }

    /// The index of the entry with identity `id` (meaningful only when
    /// [`Self::has_buffer`] holds).
    pub open spec fn index_of(self, id: usize) -> int {
        choose|k: int| 0 <= k < self.entries@.len() && (#[trigger] self.entries@[k]).id == id
    }

    /// The buffer with identity `id`.
    pub open spec fn buffer_of(self, id: usize) -> BufferView {
        self.entries@[self.index_of(id)].buffer@
    }

    /// The retained edit history of the buffer with identity `id`, oldest
    /// first.
    pub open spec fn history_of(self, id: usize) -> Seq<EditView> {
        self.entries@[self.index_of(id)].history@.map_values(|e: BufferEdit| e@)
    }

    /// The identities of the live buffers, in ascending order.
    pub open spec fn ids_in_order(self) -> Seq<usize> {
        self.entries@.map_values(|e: BufferEntry| e.id)
    }

    /// With identities strictly increasing, an identity occurs at one index
    /// only.
    proof fn lemma_index_unique(self, id: usize)
        requires
            self.wf(),
            self.has_buffer(id),
        ensures
            0 <= self.index_of(id) < self.entries@.len(),
            self.entries@[self.index_of(id)].id == id,
            forall|k: int|
                0 <= k < self.entries@.len() && (#[trigger] self.entries@[k]).id == id ==> k
                    == self.index_of(id),
    {
        let i = self.index_of(id);
        assert(0 <= i < self.entries@.len() && self.entries@[i].id == id);
        assert forall|k: int|
            0 <= k < self.entries@.len() && (#[trigger] self.entries@[k]).id == id implies k
            == i by {
            if k < i {
                assert(self.entries@[k].id < self.entries@[i].id);
            } else if i < k {
                assert(self.entries@[i].id < self.entries@[k].id);
            }
        }
    }

    /// An empty registry whose counter starts at 1.
    pub fn new() -> (m: BufferManager)
        ensures
            m.wf(),
            m.spec_next_id() == 1,
            m.ids_in_order() == Seq::<usize>::empty(),
            forall|id: usize| !m.has_buffer(id),
    {
        let m = BufferManager { entries: Vec::new(), next_id: 1 };
        proof {
            assert(m.ids_in_order() =~= Seq::<usize>::empty());
        }
        m
    }

    /// Finds the index of the entry with identity `id`.
    fn find_entry(&self, id: usize) -> (r: Option<usize>)
        requires
            self.wf(),
        ensures
            match r {
                Some(i) => self.has_buffer(id) && i == self.index_of(id),
                None => !self.has_buffer(id),
            },
    {
        let mut i: usize = 0;
        while i < self.entries.len()
            invariant
                self.wf(),
                i <= self.entries@.len(),
                forall|k: int| 0 <= k < i ==> (#[trigger] self.entries@[k]).id != id,
            decreases self.entries@.len() - i,
        {
            if self.entries[i].id == id {
                proof {
                    assert(self.has_buffer(id));
                    self.lemma_index_unique(id);
                }
                return Some(i);
            }
            i += 1;
        }
        proof {
            assert forall|k: int|
                0 <= k < self.entries@.len() implies (#[trigger] self.entries@[k]).id != id by {}
        }
        None
    }

    /// Allocates the next identity and registers a new buffer holding
    /// `content`, with an inferred language, fresh timestamps and an empty
    /// history. Never fails.
    pub fn create_buffer(&mut self, content: Vec<u8>, path: Option<Vec<u8>>) -> (id: usize)
        requires
            old(self).wf(),
            old(self).spec_next_id() < usize::MAX,
        ensures
            final(self).wf(),
            id == old(self).spec_next_id(),
            !old(self).has_buffer(id),
            forall|j: usize| old(self).has_buffer(j) ==> j < id,
            final(self).spec_next_id() == id + 1,
            final(self).has_buffer(id),
            final(self).buffer_of(id).content == content@,
            final(self).buffer_of(id).path == opt_bytes(path),
            final(self).buffer_of(id).modified == false,
            final(self).buffer_of(id).cursor_position == 0,
            final(self).buffer_of(id).scroll_position == 0,
            final(self).buffer_of(id).language == language_of(opt_bytes(path), content@),
            final(self).buffer_of(id).created_at == final(self).buffer_of(id).modified_at,
            0 <= final(self).buffer_of(id).created_at,
            final(self).history_of(id) == Seq::<EditView>::empty(),
            final(self).ids_in_order() == old(self).ids_in_order().push(id),
            forall|j: usize|
                j != id ==> #[trigger] final(self).has_buffer(j) == old(self).has_buffer(j),
            forall|j: usize|
                j != id && old(self).has_buffer(j) ==> #[trigger] final(self).buffer_of(j) == old(
                    self,
                ).buffer_of(j) && final(self).history_of(j) == old(self).history_of(j),
    {
        let id = self.next_id;
        self.next_id = self.next_id + 1;
        let now = now_millis();
        let language = detect_language(&path, &content);
        let buffer = Buffer {
            content,
            path,
            modified: false,
            created_at: now,
            modified_at: now,
            cursor_position: 0,
            scroll_position: 0,
            language,
        };
        let entry = BufferEntry { id, buffer, history: Vec::new() };
        let ghost pre = *self;
        self.entries.push(entry);
        proof {
            let n = self.entries@.len() - 1;
            assert(self.entries@[n].id == id);
            assert(self.has_buffer(id));
            self.lemma_index_unique(id);
            assert(self.entries@[self.index_of(id)].history@ =~= Seq::<BufferEdit>::empty());
            assert(self.history_of(id) =~= Seq::<EditView>::empty());
            assert(self.ids_in_order() =~= pre.ids_in_order().push(id));
            assert forall|j: usize| j != id implies #[trigger] self.has_buffer(j)
                == pre.has_buffer(j) by {
                if pre.has_buffer(j) {
                    let k = pre.index_of(j);
                    assert(self.entries@[k].id == j);
                }
                if self.has_buffer(j) {
                    let k = choose|k: int|
                        0 <= k < self.entries@.len() && (#[trigger] self.entries@[k]).id == j;
                    assert(k < n + 1);
                    assert(self.entries@[k].id == j);
                    if k == n {
                        assert(j == id);
                    } else {
                        assert(pre.entries@[k].id == j);
                    }
                }
            }
            assert forall|j: usize| j != id && pre.has_buffer(j) implies #[trigger] self.buffer_of(
                j,
            ) == pre.buffer_of(j) && self.history_of(j) == pre.history_of(j) by {
                let k = pre.index_of(j);
                pre.lemma_index_unique(j);
                assert(self.entries@[k].id == j);
                self.lemma_index_unique(j);
                assert(self.index_of(j) == k);
            }
        }
        id
    }

    /// Replacing the entry at index `i` by one with the same identity leaves
    /// every other buffer, the identity order and the invariant intact.
    proof fn lemma_update_frame(pre: BufferManager, post: BufferManager, i: int)
        requires
            pre.wf(),
            0 <= i < pre.entries@.len(),
            post.entries@ == pre.entries@.update(i, post.entries@[i]),
            post.entries@[i].id == pre.entries@[i].id,
            post.next_id == pre.next_id,
            post.entries@[i].buffer@.wf(),
            post.entries@[i].history@.len() <= HISTORY_CAP,
        ensures
            post.wf(),
            pre.has_buffer(pre.entries@[i].id),
            pre.index_of(pre.entries@[i].id) == i,
            post.has_buffer(pre.entries@[i].id),
            post.index_of(pre.entries@[i].id) == i,
            post.buffer_of(pre.entries@[i].id) == post.entries@[i].buffer@,
            post.history_of(pre.entries@[i].id) == post.entries@[i].history@.map_values(
                |e: BufferEdit| e@,
            ),
            forall|j: usize| #[trigger] post.has_buffer(j) == pre.has_buffer(j),
            forall|j: usize|
                j != pre.entries@[i].id && pre.has_buffer(j) ==> #[trigger] post.buffer_of(j)
                    == pre.buffer_of(j) && post.history_of(j) == pre.history_of(j),
            post.ids_in_order() == pre.ids_in_order(),
    {
        let id = pre.entries@[i].id;
        assert(pre.has_buffer(id));
        pre.lemma_index_unique(id);
        assert(post.has_buffer(id));
        assert(post.wf());
        post.lemma_index_unique(id);
        assert(post.ids_in_order() =~= pre.ids_in_order());
        assert forall|j: usize| #[trigger] post.has_buffer(j) == pre.has_buffer(j) by {
            if pre.has_buffer(j) {
                let k = pre.index_of(j);
                assert(post.entries@[k].id == j);
            }
            if post.has_buffer(j) {
                let k = choose|k: int|
                    0 <= k < post.entries@.len() && (#[trigger] post.entries@[k]).id == j;
                assert(pre.entries@[k].id == j);
            }
        }
        assert forall|j: usize|
            j != id && pre.has_buffer(j) implies #[trigger] post.buffer_of(j) == pre.buffer_of(j)
            && post.history_of(j) == pre.history_of(j) by {
            pre.lemma_index_unique(j);
            let k = pre.index_of(j);
            assert(post.entries@[k].id == j);
            post.lemma_index_unique(j);
            assert(post.index_of(j) == k);
            assert(k != i);
        }
    }

    /// Unconditionally replaces the whole content of buffer `id`, marking it
    /// modified and refreshing its modification time; language, history and
    /// the cursors stay as they were.
    pub fn update_buffer_content(&mut self, id: usize, content: Vec<u8>) -> (r: Result<
        (),
        BufferError,
    >)
        requires
            old(self).wf(),
        ensures
            final(self).wf(),
            final(self).spec_next_id() == old(self).spec_next_id(),
            r is Ok <==> old(self).has_buffer(id),
            r is Err ==> r == Err::<(), BufferError>(BufferError::NotFound) && *final(self) == *old(
                self,
            ),
            old(self).has_buffer(id) ==> {
                &&& final(self).buffer_of(id) == (BufferView {
                    content: content@,
                    modified: true,
                    modified_at: final(self).buffer_of(id).modified_at,
                    ..old(self).buffer_of(id)
                })
                &&& old(self).buffer_of(id).modified_at <= final(self).buffer_of(id).modified_at
                &&& final(self).history_of(id) == old(self).history_of(id)
                &&& final(self).ids_in_order() == old(self).ids_in_order()
                &&& forall|j: usize| #[trigger]
                    final(self).has_buffer(j) == old(self).has_buffer(j)
                &&& forall|j: usize|
                    j != id && old(self).has_buffer(j) ==> #[trigger] final(self).buffer_of(j)
                        == old(self).buffer_of(j) && final(self).history_of(j) == old(
                        self,
                    ).history_of(j)
            },
    {
        match self.find_entry(id) {
            Some(i) => {
                let ghost pre = *self;
                let t = stamp_no_earlier(self.entries[i].buffer.modified_at);
                let e = &mut self.entries[i];
                e.buffer.content = content;
                e.buffer.modified = true;
                e.buffer.modified_at = t;
                proof {
                    Self::lemma_update_frame(pre, *self, i as int);
                    assert(self.buffer_of(id) =~= (BufferView {
                        content: content@,
                        modified: true,
                        modified_at: self.buffer_of(id).modified_at,
                        ..pre.buffer_of(id)
                    }));
                }
                Ok(())
            },
            None => Err(BufferError::NotFound),
        }
    }

    /// Replaces the content of buffer `id` without touching the modification
    /// flag or any timestamp.
    pub fn update_buffer(&mut self, id: usize, content: Vec<u8>) -> (r: Result<(), BufferError>)
        requires
            old(self).wf(),
        ensures
            final(self).wf(),
            final(self).spec_next_id() == old(self).spec_next_id(),
            r is Ok <==> old(self).has_buffer(id),
            r is Err ==> r == Err::<(), BufferError>(BufferError::NotFound) && *final(self) == *old(
                self,
            ),
            old(self).has_buffer(id) ==> {
                &&& final(self).buffer_of(id) == (BufferView {
                    content: content@,
                    ..old(self).buffer_of(id)
                })
                &&& final(self).history_of(id) == old(self).history_of(id)
                &&& final(self).ids_in_order() == old(self).ids_in_order()
                &&& forall|j: usize| #[trigger]
                    final(self).has_buffer(j) == old(self).has_buffer(j)
                &&& forall|j: usize|
                    j != id && old(self).has_buffer(j) ==> #[trigger] final(self).buffer_of(j)
                        == old(self).buffer_of(j) && final(self).history_of(j) == old(
                        self,
                    ).history_of(j)
            },
    {
        match self.find_entry(id) {
            Some(i) => {
                let ghost pre = *self;
                let e = &mut self.entries[i];
                e.buffer.content = content;
                proof {
                    Self::lemma_update_frame(pre, *self, i as int);
                    assert(self.buffer_of(id) =~= (BufferView {
                        content: content@,
                        ..pre.buffer_of(id)
                    }));
                }
                Ok(())
            },
            None => Err(BufferError::NotFound),
        }
    }

    /// Overwrites the advisory cursor position of buffer `id`; the value is
    /// not checked against the content length.
    pub fn update_cursor_position(&mut self, id: usize, position: usize) -> (r: Result<
        (),
        BufferError,
    >)
        requires
            old(self).wf(),
        ensures
            final(self).wf(),
            final(self).spec_next_id() == old(self).spec_next_id(),
            r is Ok <==> old(self).has_buffer(id),
            r is Err ==> r == Err::<(), BufferError>(BufferError::NotFound) && *final(self) == *old(
                self,
            ),
            old(self).has_buffer(id) ==> {
                &&& final(self).buffer_of(id) == (BufferView {
                    cursor_position: position as int,
                    ..old(self).buffer_of(id)
                })
                &&& final(self).history_of(id) == old(self).history_of(id)
                &&& final(self).ids_in_order() == old(self).ids_in_order()
                &&& forall|j: usize| #[trigger]
                    final(self).has_buffer(j) == old(self).has_buffer(j)
                &&& forall|j: usize|
                    j != id && old(self).has_buffer(j) ==> #[trigger] final(self).buffer_of(j)
                        == old(self).buffer_of(j) && final(self).history_of(j) == old(
                        self,
                    ).history_of(j)
            },
    {
        match self.find_entry(id) {
            Some(i) => {
                let ghost pre = *self;
                let e = &mut self.entries[i];
                e.buffer.cursor_position = position;
                proof {
                    Self::lemma_update_frame(pre, *self, i as int);
                    assert(self.buffer_of(id) =~= (BufferView {
                        cursor_position: position as int,
                        ..pre.buffer_of(id)
                    }));
                }
                Ok(())
            },
            None => Err(BufferError::NotFound),
        }
    }

    /// Overwrites the advisory scroll position of buffer `id`; the value is
    /// not checked against the content length.
    pub fn update_scroll_position(&mut self, id: usize, position: usize) -> (r: Result<
        (),
        BufferError,
    >)
        requires
            old(self).wf(),
        ensures
            final(self).wf(),
            final(self).spec_next_id() == old(self).spec_next_id(),
            r is Ok <==> old(self).has_buffer(id),
            r is Err ==> r == Err::<(), BufferError>(BufferError::NotFound) && *final(self) == *old(
                self,
            ),
            old(self).has_buffer(id) ==> {
                &&& final(self).buffer_of(id) == (BufferView {
                    scroll_position: position as int,
                    ..old(self).buffer_of(id)
                })
                &&& final(self).history_of(id) == old(self).history_of(id)
                &&& final(self).ids_in_order() == old(self).ids_in_order()
                &&& forall|j: usize| #[trigger]
                    final(self).has_buffer(j) == old(self).has_buffer(j)
                &&& forall|j: usize|
                    j != id && old(self).has_buffer(j) ==> #[trigger] final(self).buffer_of(j)
                        == old(self).buffer_of(j) && final(self).history_of(j) == old(
                        self,
                    ).history_of(j)
            },
    {
        match self.find_entry(id) {
            Some(i) => {
                let ghost pre = *self;
                let e = &mut self.entries[i];
                e.buffer.scroll_position = position;
                proof {
                    Self::lemma_update_frame(pre, *self, i as int);
                    assert(self.buffer_of(id) =~= (BufferView {
                        scroll_position: position as int,
                        ..pre.buffer_of(id)
                    }));
                }
                Ok(())
            },
            None => Err(BufferError::NotFound),
        }
    }

    /// Clears the modification flag of buffer `id`; timestamps, content and
    /// history stay untouched, so marking twice is the same as marking once.
    pub fn mark_as_saved(&mut self, id: usize) -> (r: Result<(), BufferError>)
        requires
            old(self).wf(),
        ensures
            final(self).wf(),
            final(self).spec_next_id() == old(self).spec_next_id(),
            r is Ok <==> old(self).has_buffer(id),
            r is Err ==> r == Err::<(), BufferError>(BufferError::NotFound) && *final(self) == *old(
                self,
            ),
            old(self).has_buffer(id) ==> {
                &&& final(self).buffer_of(id) == saved(old(self).buffer_of(id))
                &&& final(self).history_of(id) == old(self).history_of(id)
                &&& final(self).ids_in_order() == old(self).ids_in_order()
                &&& forall|j: usize| #[trigger]
                    final(self).has_buffer(j) == old(self).has_buffer(j)
                &&& forall|j: usize|
                    j != id && old(self).has_buffer(j) ==> #[trigger] final(self).buffer_of(j)
                        == old(self).buffer_of(j) && final(self).history_of(j) == old(
                        self,
                    ).history_of(j)
            },
    {
        match self.find_entry(id) {
            Some(i) => {
                let ghost pre = *self;
                let e = &mut self.entries[i];
                e.buffer.modified = false;
                proof {
                    Self::lemma_update_frame(pre, *self, i as int);
                    assert(self.buffer_of(id) =~= (BufferView {
                        modified: false,
                        ..pre.buffer_of(id)
                    }));
                }
                Ok(())
            },
            None => Err(BufferError::NotFound),
        }
    }

    /// Replaces the byte range `start..end` of buffer `id` by `text`,
    /// records the edit in the buffer's history (evicting the oldest entry
    /// past the cap), marks the buffer modified and refreshes its
    /// modification time. Offsets beyond the content are rejected as
    /// [`BufferError::InvalidRange`]; `start` is not required to lie below
    /// `end`.
    pub fn apply_edit(&mut self, id: usize, start: usize, end: usize, text: &Vec<u8>) -> (r: Result<
        (),
        BufferError,
    >)
        requires
            old(self).wf(),
        ensures
            final(self).wf(),
            final(self).spec_next_id() == old(self).spec_next_id(),
            r is Ok <==> old(self).has_buffer(id) && start <= old(self).buffer_of(id).content.len()
                && end <= old(self).buffer_of(id).content.len(),
            !old(self).has_buffer(id) ==> r == Err::<(), BufferError>(BufferError::NotFound)
                && *final(self) == *old(self),
            old(self).has_buffer(id) && !(start <= old(self).buffer_of(id).content.len() && end
                <= old(self).buffer_of(id).content.len()) ==> r == Err::<(), BufferError>(
                BufferError::InvalidRange,
            ) && *final(self) == *old(self),
            r is Ok ==> {
                let pre = old(self).buffer_of(id);
                &&& final(self).buffer_of(id) == (BufferView {
                    content: pre.content.subrange(0, start as int) + text@ + pre.content.subrange(
                        end as int,
                        pre.content.len() as int,
                    ),
                    modified: true,
                    modified_at: final(self).buffer_of(id).modified_at,
                    ..pre
                })
                &&& pre.modified_at <= final(self).buffer_of(id).modified_at
                &&& final(self).history_of(id) == push_capped(
                    old(self).history_of(id),
                    EditView {
                        start: start as int,
                        end: end as int,
                        text: text@,
                        timestamp: final(self).buffer_of(id).modified_at,
                    },
                )
                &&& final(self).ids_in_order() == old(self).ids_in_order()
                &&& forall|j: usize| #[trigger]
                    final(self).has_buffer(j) == old(self).has_buffer(j)
                &&& forall|j: usize|
                    j != id && old(self).has_buffer(j) ==> #[trigger] final(self).buffer_of(j)
                        == old(self).buffer_of(j) && final(self).history_of(j) == old(
                        self,
                    ).history_of(j)
            },
    {
        match self.find_entry(id) {
            Some(i) => {
                if start > self.entries[i].buffer.content.len() || end
                    > self.entries[i].buffer.content.len() {
                    return Err(BufferError::InvalidRange);
                }
                let ghost pre = *self;
                let content = &self.entries[i].buffer.content;
                let mut new_content = crate::text::sub_bytes(content, 0, start);
                crate::text::append_bytes(&mut new_content, text);
                let suffix = crate::text::sub_bytes(content, end, content.len());
                crate::text::append_bytes(&mut new_content, &suffix);
                let t = stamp_no_earlier(self.entries[i].buffer.modified_at);
                let edit = BufferEdit { start, end, text: copy_bytes(text), timestamp: t };
                let ghost edit_view = edit@;
                let e = &mut self.entries[i];
                e.buffer.content = new_content;
                e.buffer.modified = true;
                e.buffer.modified_at = t;
                e.history.push(edit);
                if e.history.len() > HISTORY_CAP {
                    e.history.remove(0);
                }
                proof {
                    let old_h = pre.entries@[i as int].history@;
                    assert(self.entries@[i as int].history@.map_values(|x: BufferEdit| x@)
                        =~= push_capped(old_h.map_values(|x: BufferEdit| x@), edit_view));
                    Self::lemma_update_frame(pre, *self, i as int);
                    assert(self.buffer_of(id) =~= (BufferView {
                        content: pre.buffer_of(id).content.subrange(0, start as int) + text@
                            + pre.buffer_of(id).content.subrange(
                            end as int,
                            pre.buffer_of(id).content.len() as int,
                        ),
                        modified: true,
                        modified_at: t as int,
                        ..pre.buffer_of(id)
                    }));
                }
                Ok(())
            },
            None => Err(BufferError::NotFound),
        }
    }

    /// Removes buffer `id` and its edit history atomically; the identity
    /// counter is not touched, so the identity is never handed out again.
    pub fn close_buffer(&mut self, id: usize) -> (r: Result<(), BufferError>)
        requires
            old(self).wf(),
        ensures
            final(self).wf(),
            final(self).spec_next_id() == old(self).spec_next_id(),
            r is Ok <==> old(self).has_buffer(id),
            r is Err ==> r == Err::<(), BufferError>(BufferError::NotFound) && *final(self) == *old(
                self,
            ),
            old(self).has_buffer(id) ==> {
                &&& !final(self).has_buffer(id)
                &&& final(self).ids_in_order() == old(self).ids_in_order().remove(
                    old(self).index_of(id),
                )
                &&& forall|j: usize|
                    j != id ==> #[trigger] final(self).has_buffer(j) == old(self).has_buffer(j)
                &&& forall|j: usize|
                    j != id && old(self).has_buffer(j) ==> #[trigger] final(self).buffer_of(j)
                        == old(self).buffer_of(j) && final(self).history_of(j) == old(
                        self,
                    ).history_of(j)
            },
    {
        match self.find_entry(id) {
            Some(i) => {
                let ghost pre = *self;
                self.entries.remove(i);
                proof {
                    pre.lemma_index_unique(id);
                    assert(self.entries@ == pre.entries@.remove(i as int));
                    assert(forall|m: int|
                        0 <= m < i ==> #[trigger] self.entries@[m] == pre.entries@[m]);
                    assert(forall|m: int|
                        i <= m < self.entries@.len() ==> #[trigger] self.entries@[m]
                            == pre.entries@[m + 1]);
                    assert(self.wf());
                    assert(!self.has_buffer(id)) by {
                        if self.has_buffer(id) {
                            let k = choose|k: int|
                                0 <= k < self.entries@.len() && (#[trigger] self.entries@[k]).id
                                    == id;
                            if k < i {
                                assert(pre.entries@[k].id == id);
                            } else {
                                assert(pre.entries@[k + 1].id == id);
                            }
                        }
                    }
                    assert(self.ids_in_order() =~= pre.ids_in_order().remove(i as int));
                    assert forall|j: usize| j != id implies #[trigger] self.has_buffer(j)
                        == pre.has_buffer(j) by {
                        if pre.has_buffer(j) {
                            let k = pre.index_of(j);
                            pre.lemma_index_unique(j);
                            if k < i {
                                assert(self.entries@[k].id == j);
                            } else {
                                assert(k > i);
                                assert(self.entries@[k - 1].id == j);
                            }
                        }
                        if self.has_buffer(j) {
                            let k = choose|k: int|
                                0 <= k < self.entries@.len() && (#[trigger] self.entries@[k]).id
                                    == j;
                            if k < i {
                                assert(pre.entries@[k].id == j);
                            } else {
                                assert(pre.entries@[k + 1].id == j);
                            }
                        }
                    }
                    assert forall|j: usize|
                        j != id && pre.has_buffer(j) implies #[trigger] self.buffer_of(j)
                        == pre.buffer_of(j) && self.history_of(j) == pre.history_of(j) by {
                        pre.lemma_index_unique(j);
                        let k = pre.index_of(j);
                        self.lemma_index_unique(j);
                        if k < i {
                            assert(self.entries@[k].id == j);
                            assert(self.index_of(j) == k);
                        } else {
                            assert(k > i);
                            assert(self.entries@[k - 1].id == j);
                            assert(self.index_of(j) == k - 1);
                        }
                    }
                }
                Ok(())
            },
            None => Err(BufferError::NotFound),
        }
    }

    /// All occurrences of `query` in buffer `id`, as `(start, end)` byte
    /// ranges in ascending order. Matches may overlap: the scan resumes one
    /// byte after each match. A case-insensitive search folds both content
    /// and query byte-wise to ASCII lower case, which leaves every offset in
    /// place.
    pub fn search_in_buffer(&self, id: usize, query: &Vec<u8>, case_sensitive: bool) -> (r: Result<
        Vec<(usize, usize)>,
        BufferError,
    >)
        requires
            self.wf(),
        ensures
            r is Ok <==> self.has_buffer(id),
            r is Err ==> r == Err::<Vec<(usize, usize)>, BufferError>(BufferError::NotFound),
            r matches Ok(ms) ==> search_result(
                folded(self.buffer_of(id).content, case_sensitive),
                folded(query@, case_sensitive),
                ms@,
            ),
    {
        match self.find_entry(id) {
            Some(i) => {
                let content = &self.entries[i].buffer.content;
                let cl = if case_sensitive {
                    copy_bytes(content)
                } else {
                    crate::text::lower_bytes(content)
                };
                let ql = if case_sensitive {
                    copy_bytes(query)
                } else {
                    crate::text::lower_bytes(query)
                };
                let mut out: Vec<(usize, usize)> = Vec::new();
                let mut start: usize = 0;
                proof {
                    assert(cl@.len() == cl.len());
                }
                loop
                    invariant_except_break
                        start <= cl@.len() + 1,
                        cl@.len() <= usize::MAX,
                        ql@.len() == query@.len(),
                        forall|k: int|
                            0 <= k < out@.len() ==> crate::text::match_at(
                                cl@,
                                ql@,
                                (#[trigger] out@[k]).0 as int,
                            ) && out@[k].1 == out@[k].0 + ql@.len(),
                        forall|k: int|
                            0 <= k < out@.len() - 1 ==> (#[trigger] out@[k]).0 < out@[k + 1].0,
                        forall|k: int| 0 <= k < out@.len() ==> (#[trigger] out@[k]).0 < start,
                        forall|p: int|
                            crate::text::match_at(cl@, ql@, p) && p < start ==> exists|k: int|
                                0 <= k < out@.len() && (#[trigger] out@[k]).0 == p,
                    ensures
                        forall|k: int|
                            0 <= k < out@.len() ==> crate::text::match_at(
                                cl@,
                                ql@,
                                (#[trigger] out@[k]).0 as int,
                            ) && out@[k].1 == out@[k].0 + ql@.len(),
                        forall|k: int|
                            0 <= k < out@.len() - 1 ==> (#[trigger] out@[k]).0 < out@[k + 1].0,
                        forall|p: int|
                            crate::text::match_at(cl@, ql@, p) ==> exists|k: int|
                                0 <= k < out@.len() && (#[trigger] out@[k]).0 == p,
                    decreases cl@.len() + 1 - start,
                {
                    match crate::text::find_from(&cl, &ql, start) {
                        None => {
                            proof {
                                assert forall|p: int|
                                    crate::text::match_at(cl@, ql@, p) implies exists|k: int|
                                    0 <= k < out@.len() && (#[trigger] out@[k]).0 == p by {
                                    assert(p < start);
                                }
                            }
                            break ;
                        },
                        Some(pos) => {
                            let ghost prev_out = out@;
                            let ghost prev_start = start;
                            out.push((pos, pos + ql.len()));
                            proof {
                                assert forall|p: int|
                                    crate::text::match_at(cl@, ql@, p) && p < pos
                                        + 1 implies exists|k: int|
                                    0 <= k < out@.len() && (#[trigger] out@[k]).0 == p by {
                                    if p < prev_start {
                                        let k = choose|k: int|
                                            0 <= k < prev_out.len() && (#[trigger] prev_out[k]).0
                                                == p;
                                        assert(out@[k].0 == p);
                                    } else if p < pos {
                                        assert(!crate::text::match_at(cl@, ql@, p));
                                    } else {
                                        assert(out@[out@.len() - 1].0 == pos);
                                    }
                                }
                            }
                            if ql.len() == 0 && pos == cl.len() {
                                proof {
                                    assert forall|p: int|
                                        crate::text::match_at(cl@, ql@, p) implies exists|k: int|
                                        0 <= k < out@.len() && (#[trigger] out@[k]).0 == p by {
                                        assert(p <= cl@.len());
                                        assert(p < pos + 1);
                                    }
                                }
                                break ;
                            }
                            start = pos + 1;
                        },
                    }
                }
                proof {
                    assert(self.buffer_of(id).content == self.entries@[i as int].buffer@.content);
                    assert(cl@ == folded(self.buffer_of(id).content, case_sensitive));
                    assert(ql@ == folded(query@, case_sensitive));
                    assert(search_result(cl@, ql@, out@));
                }
                Ok(out)
            },
            None => Err(BufferError::NotFound),
        }
    }

    /// Replaces every non-overlapping occurrence of `query` in buffer `id`
    /// by `replacement`, scanning left to right and advancing past each
    /// match, and returns how many replacements were made. Bytes outside the
    /// match spans are kept as they are, also under a case-insensitive scan.
    /// An empty query replaces nothing. The buffer is marked modified and
    /// its modification time refreshed whether or not anything matched.
    pub fn replace_in_buffer(
        &mut self,
        id: usize,
        query: &Vec<u8>,
        replacement: &Vec<u8>,
        case_sensitive: bool,
    ) -> (r: Result<usize, BufferError>)
        requires
            old(self).wf(),
        ensures
            final(self).wf(),
            final(self).spec_next_id() == old(self).spec_next_id(),
            r is Ok <==> old(self).has_buffer(id),
            r is Err ==> r == Err::<usize, BufferError>(BufferError::NotFound) && *final(self)
                == *old(self),
            match r {
                Ok(n) => {
                    let pre = old(self).buffer_of(id);
                    let cl = if case_sensitive {
                        pre.content
                    } else {
                        crate::text::lower(pre.content)
                    };
                    let ql = if case_sensitive {
                        query@
                    } else {
                        crate::text::lower(query@)
                    };
                    &&& n == crate::text::replace_count(cl, ql, 0)
                    &&& final(self).buffer_of(id) == (BufferView {
                        content: crate::text::replaced_from(pre.content, cl, ql, replacement@, 0),
                        modified: true,
                        modified_at: final(self).buffer_of(id).modified_at,
                        ..pre
                    })
                    &&& pre.modified_at <= final(self).buffer_of(id).modified_at
                    &&& final(self).history_of(id) == old(self).history_of(id)
                    &&& final(self).ids_in_order() == old(self).ids_in_order()
                    &&& forall|j: usize| #[trigger]
                        final(self).has_buffer(j) == old(self).has_buffer(j)
                    &&& forall|j: usize|
                        j != id && old(self).has_buffer(j) ==> #[trigger] final(self).buffer_of(j)
                            == old(self).buffer_of(j) && final(self).history_of(j) == old(
                            self,
                        ).history_of(j)
                },
                Err(_) => true,
            },
    {
        match self.find_entry(id) {
            Some(i) => {
                let ghost pre = *self;
                let content = &self.entries[i].buffer.content;
                let c = copy_bytes(content);
                let cl = if case_sensitive {
                    copy_bytes(content)
                } else {
                    crate::text::lower_bytes(content)
                };
                let ql = if case_sensitive {
                    copy_bytes(query)
                } else {
                    crate::text::lower_bytes(query)
                };
                let mut out: Vec<u8> = Vec::new();
                let mut count: usize = 0;
                let mut pos: usize = 0;
                proof {
                    assert(c@.len() == c.len());
                }
                while pos < c.len()
                    invariant
                        pos <= c@.len(),
                        c@.len() <= usize::MAX,
                        count <= pos,
                        cl@.len() == c@.len(),
                        ql@.len() == query@.len(),
                        crate::text::replaced_from(c@, cl@, ql@, replacement@, 0) == out@
                            + crate::text::replaced_from(c@, cl@, ql@, replacement@, pos as int),
                        crate::text::replace_count(cl@, ql@, 0) == count + crate::text::replace_count(
                            cl@,
                            ql@,
                            pos as int,
                        ),
                    decreases c@.len() - pos,
                {
                    if ql.len() > 0 && ql.len() <= c.len() - pos && crate::text::is_match_at(
                        &cl,
                        &ql,
                        pos,
                    ) {
                        crate::text::append_bytes(&mut out, replacement);
                        count += 1;
                        pos += ql.len();
                    } else {
                        out.push(c[pos]);
                        pos += 1;
                    }
                }
                proof {
                    assert(out@ =~= crate::text::replaced_from(c@, cl@, ql@, replacement@, 0));
                }
                let t = stamp_no_earlier(self.entries[i].buffer.modified_at);
                let e = &mut self.entries[i];
                e.buffer.content = out;
                e.buffer.modified = true;
                e.buffer.modified_at = t;
                proof {
                    Self::lemma_update_frame(pre, *self, i as int);
                    assert(self.buffer_of(id) =~= (BufferView {
                        content: crate::text::replaced_from(
                            pre.buffer_of(id).content,
                            cl@,
                            ql@,
                            replacement@,
                            0,
                        ),
                        modified: true,
                        modified_at: t as int,
                        ..pre.buffer_of(id)
                    }));
                }
                Ok(count)
            },
            None => Err(BufferError::NotFound),
        }
    }

    /// A snapshot of the content of buffer `id`.
    pub fn get_content(&self, id: usize) -> (r: Result<Vec<u8>, BufferError>)
        requires
            self.wf(),
        ensures
            r is Ok <==> self.has_buffer(id),
            r is Err ==> r == Err::<Vec<u8>, BufferError>(BufferError::NotFound),
            r matches Ok(c) ==> c@ == self.buffer_of(id).content,
    {
        match self.find_entry(id) {
            Some(i) => Ok(copy_bytes(&self.entries[i].buffer.content)),
            None => Err(BufferError::NotFound),
        }
    }

    /// The freshly computed projection of buffer `id`: its byte size and
    /// line count are taken from the content at query time, never cached.
    pub fn get_buffer_info(&self, id: usize) -> (r: Option<BufferInfo>)
        requires
            self.wf(),
        ensures
            r is Some <==> self.has_buffer(id),
            r matches Some(info) ==> info@ == info_of(id, self.buffer_of(id)),
    {
        match self.find_entry(id) {
            Some(i) => {
                let b = &self.entries[i].buffer;
                let info = BufferInfo {
                    id,
                    path: copy_opt_bytes(&b.path),
                    modified: b.modified,
                    size: b.content.len(),
                    lines: crate::text::count_lines(&b.content),
                    language: copy_opt_bytes(&b.language),
                    created_at: b.created_at,
                    modified_at: b.modified_at,
                };
                proof {
                    assert(info@ =~= info_of(id, self.buffer_of(id)));
                }
                Some(info)
            },
            None => None,
        }
    }

    /// The projections of all live buffers, in ascending identity order.
    pub fn list_buffers(&self) -> (r: Vec<BufferInfo>)
        requires
            self.wf(),
        ensures
            r@.len() == self.ids_in_order().len(),
            forall|k: int|
                0 <= k < r@.len() ==> (#[trigger] r@[k])@ == info_of(
                    self.ids_in_order()[k],
                    self.entries@[k].buffer@,
                ),
            forall|k: int| 0 <= k < r@.len() ==> #[trigger] self.has_buffer(self.ids_in_order()[k]),
    {
        let mut r: Vec<BufferInfo> = Vec::new();
        let mut i: usize = 0;
        while i < self.entries.len()
            invariant
                self.wf(),
                i <= self.entries@.len(),
                r@.len() == i,
                forall|k: int|
                    0 <= k < i ==> (#[trigger] r@[k])@ == info_of(
                        self.ids_in_order()[k],
                        self.entries@[k].buffer@,
                    ),
            decreases self.entries@.len() - i,
        {
            let b = &self.entries[i].buffer;
            let info = BufferInfo {
                id: self.entries[i].id,
                path: copy_opt_bytes(&b.path),
                modified: b.modified,
                size: b.content.len(),
                lines: crate::text::count_lines(&b.content),
                language: copy_opt_bytes(&b.language),
                created_at: b.created_at,
                modified_at: b.modified_at,
            };
            proof {
                assert(info@ =~= info_of(self.entries@[i as int].id, self.entries@[i as int].buffer@));
            }
            r.push(info);
            i += 1;
        }
        proof {
            assert forall|k: int|
                0 <= k < r@.len() implies #[trigger] self.has_buffer(self.ids_in_order()[k]) by {
                assert(self.entries@[k].id == self.ids_in_order()[k]);
            }
        }
        r
    }

    /// The retained edit history of buffer `id`, oldest first; an unknown
    /// identity yields an empty history, not an error.
    pub fn get_edit_history(&self, id: usize) -> (r: Vec<BufferEdit>)
        requires
            self.wf(),
        ensures
            r@.map_values(|e: BufferEdit| e@) == if self.has_buffer(id) {
                self.history_of(id)
            } else {
                Seq::<EditView>::empty()
            },
    {
        match self.find_entry(id) {
            Some(i) => {
                let h = &self.entries[i].history;
                let mut r: Vec<BufferEdit> = Vec::new();
                let mut k: usize = 0;
                while k < h.len()
                    invariant
                        k <= h@.len(),
                        r@.len() == k,
                        forall|m: int| 0 <= m < k ==> (#[trigger] r@[m])@ == h@[m]@,
                    decreases h@.len() - k,
                {
                    let e = &h[k];
                    let copy = BufferEdit {
                        start: e.start,
                        end: e.end,
                        text: copy_bytes(&e.text),
                        timestamp: e.timestamp,
                    };
                    proof {
                        assert(copy@ =~= h@[k as int]@);
                    }
                    r.push(copy);
                    k += 1;
                }
                proof {
                    assert(r@.map_values(|e: BufferEdit| e@) =~= self.history_of(id));
                }
                r
            },
            None => {
                let r: Vec<BufferEdit> = Vec::new();
                proof {
                    assert(r@.map_values(|e: BufferEdit| e@) =~= Seq::<EditView>::empty());
                }
                r
            },
        }
    }

    /// The path a save of buffer `id` would write to: the explicit path when
    /// one is given, else the buffer's own; when neither is available the
    /// save cannot proceed and [`BufferError::MissingPath`] says so.
    pub fn resolve_save_path(&self, id: usize, path: Option<Vec<u8>>) -> (r: Result<
        Vec<u8>,
        BufferError,
    >)
        requires
            self.wf(),
        ensures
            r is Ok <==> self.has_buffer(id) && (path is Some || self.buffer_of(id).path is Some),
            !self.has_buffer(id) ==> r == Err::<Vec<u8>, BufferError>(BufferError::NotFound),
            self.has_buffer(id) && path is None && self.buffer_of(id).path is None ==> r == Err::<
                Vec<u8>,
                BufferError,
            >(BufferError::MissingPath),
            r matches Ok(p) ==> p@ == if path is Some {
                path.unwrap()@
            } else {
                self.buffer_of(id).path.unwrap()
            },
    {
        match self.find_entry(id) {
            Some(i) => match path {
                Some(p) => Ok(p),
                None => match &self.entries[i].buffer.path {
                    Some(own) => Ok(copy_bytes(own)),
                    None => Err(BufferError::MissingPath),
                },
            },
            None => Err(BufferError::NotFound),
        }
    }

    /// A snapshot copy of the buffer with identity `id`, or nothing when no
    /// such buffer is live.
    pub fn get_buffer(&self, id: usize) -> (r: Option<Buffer>)
        requires
            self.wf(),
        ensures
            match r {
                Some(b) => self.has_buffer(id) && b@ == self.buffer_of(id),
                None => !self.has_buffer(id),
            },
    {
        match self.find_entry(id) {
            Some(i) => {
                let b = clone_buffer(&self.entries[i].buffer);
                Some(b)
            },
            None => None,
        }
    }
}

/// A buffer after a save was acknowledged: only the modification flag is
/// cleared.
pub open spec fn saved(b: BufferView) -> BufferView {
    BufferView { modified: false, ..b }
}

/// Identity monotonicity: every live identity lies strictly below the
/// counter. Since a creation returns the counter and moves it up while every
/// other operation leaves it where it is, identities returned by successive
/// creations strictly increase and are never reused, however many buffers
/// are closed in between.
pub proof fn lemma_identity_monotonic(m: BufferManager, id: usize)
    requires
        m.wf(),
        m.has_buffer(id),
    ensures
        id < m.spec_next_id(),
{
    let k = m.index_of(id);
    assert(0 <= k < m.entries@.len() && m.entries@[k].id == id);
}

/// Marking a buffer saved is idempotent: acknowledging a save twice leaves
/// the very state one acknowledgement leaves, with the modification flag
/// clear both times.
pub proof fn lemma_mark_saved_idempotent(b: BufferView)
    ensures
        saved(saved(b)) == saved(b),
        saved(b).modified == false,
{
    assert(saved(saved(b)) =~= saved(b));
}

/// The history a sequence of edits leaves behind, each appended under the
/// eviction rule of [`push_capped`].
pub open spec fn log_after(es: Seq<EditView>) -> Seq<EditView>
    decreases es.len(),
{
    if es.len() == 0 {
        Seq::<EditView>::empty()
    } else {
        push_capped(log_after(es.drop_last()), es.last())
    }
}

/// History bound: after any number of edits, the retained log holds exactly
/// the most recent [`HISTORY_CAP`] of them, oldest first — evicting one at a
/// time as [`BufferManager::apply_edit`] does comes to the same thing as
/// keeping the tail of the full edit sequence.
pub proof fn lemma_history_bound(es: Seq<EditView>)
    ensures
        log_after(es).len() <= HISTORY_CAP,
        es.len() <= HISTORY_CAP ==> log_after(es) == es,
        es.len() > HISTORY_CAP ==> log_after(es) == es.subrange(
            es.len() - (HISTORY_CAP as int),
            es.len() as int,
        ),
    decreases es.len(),
{
    if es.len() == 0 {
        assert(log_after(es) =~= es);
    } else {
        let front = es.drop_last();
        lemma_history_bound(front);
        if front.len() < HISTORY_CAP {
            assert(log_after(front) == front);
            assert(log_after(es) =~= es);
        } else if es.len() == HISTORY_CAP + 1 {
            assert(log_after(front) == front);
            assert(log_after(es) =~= es.subrange(1, es.len() as int));
        } else {
            let tail = es.subrange(es.len() - (HISTORY_CAP as int), es.len() as int);
            assert(log_after(front) == front.subrange(
                front.len() - (HISTORY_CAP as int),
                front.len() as int,
            ));
            assert(log_after(front).push(es.last()).len() == HISTORY_CAP + 1);
            assert(log_after(es) =~= tail);
        }
    }
}

/// A clock reading that never moves before `floor`, so a refreshed
/// modification time keeps `created_at <= modified_at` even if the system
/// clock stepped backwards.
fn stamp_no_earlier(floor: i64) -> (t: i64)
    ensures
        floor <= t,
{
    let now = now_millis();
    if now < floor {
        floor
    } else {
        now
    }
}

/// An independent copy of an optional byte string.
pub fn copy_opt_bytes(o: &Option<Vec<u8>>) -> (r: Option<Vec<u8>>)
    ensures
        opt_bytes(r) == opt_bytes(*o),
{
    match o {
        Some(v) => Some(copy_bytes(v)),
        None => None,
    }
}

/// A snapshot copy of a buffer.
pub fn clone_buffer(b: &Buffer) -> (r: Buffer)
    ensures
        r@ == b@,
{
    let r = Buffer {
        content: copy_bytes(&b.content),
        path: copy_opt_bytes(&b.path),
        modified: b.modified,
        created_at: b.created_at,
        modified_at: b.modified_at,
        cursor_position: b.cursor_position,
        scroll_position: b.scroll_position,
        language: copy_opt_bytes(&b.language),
    };
    proof {
        assert(r@ =~= b@);
    }
    r
}

} // verus!
