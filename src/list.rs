//! The listing cursor: a directory listing pulled page by page, each page
//! one request, its entries handed out in the order the provider gave them.
use vstd::prelude::*;
use crate::config::Backend;
use crate::path::{abs_path, build_rel_path, rel_path, valid_path, valid_root};
use crate::request::{list_url, HttpRequest, Method};
use crate::response::{ErrorKind, ObjectMode, ObsError, Operation};

verus! {

/// An entry of a listing: its mode and its path relative to the root.
#[derive(Debug)]
pub struct DirEntry {
    pub mode: ObjectMode,
    pub path: String,
}

/// The view of an entry.
pub open spec fn entry_view(e: DirEntry) -> (ObjectMode, Seq<char>) {
    (e.mode, e.path@)
}

/// One page of a listing as the provider returned it, keys absolute.
pub struct ListPage {
    /// The directories, from the provider's common prefixes.
    pub common_prefixes: Vec<String>,
    /// The objects.
    pub contents: Vec<String>,
    /// Whether more pages follow.
    pub is_truncated: bool,
    /// Where the next page starts, when more pages follow.
    pub next_marker: String,
}

/// The view of a page.
pub struct PageView {
    pub prefixes: Seq<Seq<char>>,
    pub contents: Seq<Seq<char>>,
    pub truncated: bool,
    pub next_marker: Seq<char>,
}

impl View for ListPage {
    type V = PageView;

    open spec fn view(&self) -> PageView {
        PageView {
            prefixes: self.common_prefixes@.map_values(|s: String| s@),
            contents: self.contents@.map_values(|s: String| s@),
            truncated: self.is_truncated,
            next_marker: self.next_marker@,
        }
    }
}

/// Whether every key of a page lies under `root`.
pub open spec fn page_under_root(root: Seq<char>, p: PageView) -> bool {
    &&& forall|i: int| 0 <= i < p.prefixes.len() ==> (#[trigger] rel_path(root, p.prefixes[i])) is Some
    &&& forall|i: int| 0 <= i < p.contents.len() ==> (#[trigger] rel_path(root, p.contents[i])) is Some
}

/// The entries of keys, each relative to `root`, with the given mode.
pub open spec fn keys_entries(root: Seq<char>, keys: Seq<Seq<char>>, mode: ObjectMode) -> Seq<(ObjectMode, Seq<char>)> {
    keys.map_values(|k: Seq<char>| (mode, rel_path(root, k)->0))
}

/// The entries of a page: its directories, then its objects, each in the
/// provider's order.
pub open spec fn page_entries(root: Seq<char>, p: PageView) -> Seq<(ObjectMode, Seq<char>)> {
    keys_entries(root, p.prefixes, ObjectMode::Dir) + keys_entries(root, p.contents, ObjectMode::File)
}

/// The state of a listing.
pub struct ListState {
    pub root: Seq<char>,
    pub path: Seq<char>,
    /// Where the next page starts; empty for the first page.
    pub marker: Seq<char>,
    /// The entries fetched and not yet handed out.
    pub pending: Seq<(ObjectMode, Seq<char>)>,
    /// Whether the provider has sent the last page.
    pub done: bool,
}

/// The state of a new listing of `path` under `root`.
pub open spec fn fresh_state(root: Seq<char>, path: Seq<char>) -> ListState {
    ListState { root, path, marker: Seq::empty(), pending: Seq::empty(), done: false }
}

/// The state after a page is taken in.
pub open spec fn ingest_state(s: ListState, p: PageView) -> ListState {
    ListState {
        marker: if p.truncated {
            p.next_marker
        } else {
            s.marker
        },
        pending: s.pending + page_entries(s.root, p),
        done: !p.truncated,
        ..s
    }
}

/// The state after the first pending entry is handed out.
pub open spec fn pop_state(s: ListState) -> ListState {
    ListState { pending: s.pending.drop_first(), ..s }
}

/// The entries handed out by pulling until no entry is pending.
pub open spec fn drain(s: ListState) -> Seq<(ObjectMode, Seq<char>)>
    decreases s.pending.len(),
{
    if s.pending.len() == 0 {
        Seq::empty()
    } else {
        seq![s.pending[0]] + drain(pop_state(s))
    }
}

/// The state once no entry is pending.
pub open spec fn drained_state(s: ListState) -> ListState {
    ListState { pending: Seq::empty(), ..s }
}

/// The entries handed out by a consumer that drains what is pending, then
/// takes in each page in turn and drains it.
pub open spec fn run_pages(s: ListState, pages: Seq<PageView>) -> Seq<(ObjectMode, Seq<char>)>
    decreases pages.len(),
{
    if pages.len() == 0 {
        drain(s)
    } else {
        drain(s) + run_pages(ingest_state(drained_state(s), pages[0]), pages.drop_first())
    }
}

/// The entries of the pages, concatenated in order.
pub open spec fn all_entries(root: Seq<char>, pages: Seq<PageView>) -> Seq<(ObjectMode, Seq<char>)>
    decreases pages.len(),
{
    if pages.len() == 0 {
        Seq::empty()
    } else {
        page_entries(root, pages[0]) + all_entries(root, pages.drop_first())
    }
}

proof fn lemma_drain_is_pending(s: ListState)
    ensures
        drain(s) == s.pending,
    decreases s.pending.len(),
{
    if s.pending.len() > 0 {
        lemma_drain_is_pending(pop_state(s));
        assert(seq![s.pending[0]] + s.pending.drop_first() =~= s.pending);
    } else {
        assert(s.pending =~= Seq::empty());
    }
}

proof fn lemma_run_pages(s: ListState, pages: Seq<PageView>)
    ensures
        run_pages(s, pages) == s.pending + all_entries(s.root, pages),
    decreases pages.len(),
{
    lemma_drain_is_pending(s);
    if pages.len() == 0 {
        assert(s.pending + Seq::empty() =~= s.pending);
    } else {
        let t = ingest_state(drained_state(s), pages[0]);
        lemma_run_pages(t, pages.drop_first());
        assert(t.pending =~= page_entries(s.root, pages[0]));
        assert(s.pending + all_entries(s.root, pages) =~= s.pending + (t.pending + all_entries(
            s.root,
            pages.drop_first(),
        )));
    }
}

/// Listing is exhaustive and keeps order across pages: pulling every entry
/// of a new listing, page after page, hands out exactly the entries of all
/// the pages concatenated in order, each path relative to the root.
pub proof fn listing_concatenates_pages(root: Seq<char>, path: Seq<char>, pages: Seq<PageView>)
    ensures
        run_pages(fresh_state(root, path), pages) == all_entries(root, pages),
{
    lemma_run_pages(fresh_state(root, path), pages);
    assert(Seq::<(ObjectMode, Seq<char>)>::empty() + all_entries(root, pages) =~= all_entries(root, pages));
}

/// Every listed key maps back to itself: the key of the root-relative path
/// of a key under the root is that key (but for a key whose relative path is
/// `/`, which names the root itself).
pub proof fn listed_path_maps_back(root: Seq<char>, key: Seq<char>, rel: Seq<char>)
    requires
        valid_root(root),
        rel_path(root, key) == Some(rel),
        rel != seq!['/'],
    ensures
        abs_path(root, rel) == key,
{
    let prefix = root.drop_first();
    assert(key =~= key.subrange(0, prefix.len() as int) + key.subrange(prefix.len() as int, key.len() as int));
}

/// What a pull on a listing does.
pub enum ListStep {
    /// Hands out the next entry.
    Entry(DirEntry),
    /// Asks for the next page with this request; its answer goes to `ingest`.
    Fetch(HttpRequest),
    /// The listing has ended.
    End,
}

/// A listing in progress.
pub struct ListCursor {
    root: String,
    path: String,
    marker: String,
    buffer: Vec<DirEntry>,
    pos: usize,
    done: bool,
}

impl View for ListCursor {
    type V = ListState;

    closed spec fn view(&self) -> ListState {
        ListState {
            root: self.root@,
            path: self.path@,
            marker: self.marker@,
            pending: self.buffer@.subrange(self.pos as int, self.buffer@.len() as int).map_values(
                |e: DirEntry| entry_view(e),
            ),
            done: self.done,
        }
    }
}

impl ListCursor {
    /// Well-formed: the position lies within the buffer, the root and the path
    /// are valid.
    pub closed spec fn wf(&self) -> bool {
        &&& self.pos <= self.buffer@.len()
        &&& valid_root(self.root@)
        &&& valid_path(self.path@)
    }

    /// Starts a listing of `path` under `root`.
    pub fn new(root: &str, path: &str) -> (r: ListCursor)
        requires
            valid_root(root@),
            valid_path(path@),
        ensures
            r.wf(),
            r@ == fresh_state(root@, path@),
    {
        let r = ListCursor {
            root: String::from_str(root),
            path: String::from_str(path),
            marker: String::new(),
            buffer: Vec::new(),
            pos: 0,
            done: false,
        };
        proof {
            assert(r@.pending =~= Seq::empty());
        }
        r
    }

    /// Whether the next pull needs a page from the provider.
    pub fn needs_page(&self) -> (r: bool)
        requires
            self.wf(),
        ensures
            r == (self@.pending.len() == 0 && !self@.done),
    {
        self.pos >= self.buffer.len() && !self.done
    }

    /// Whether the listing has ended: the last page was taken in and every
    /// entry handed out.
    pub fn is_exhausted(&self) -> (r: bool)
        requires
            self.wf(),
        ensures
            r == (self@.pending.len() == 0 && self@.done),
    {
        self.pos >= self.buffer.len() && self.done
    }

    /// The request for the next page.
    pub fn page_request(&self, backend: &Backend) -> (r: HttpRequest)
        requires
            self.wf(),
            backend.wf(),
        ensures
            r@.method == Method::Get,
            r@.url == list_url(backend@.endpoint, backend@.root, self@.path, self@.marker),
            r@.headers.len() == 0,
    {
        backend.list_request(self.path.as_str(), self.marker.as_str())
    }

    /// One pull: the next pending entry; else, while pages remain, the
    /// request for the next page; else the end of the listing.
    pub fn pull(&mut self, backend: &Backend) -> (r: ListStep)
        requires
            old(self).wf(),
            backend.wf(),
        ensures
            final(self).wf(),
            old(self)@.pending.len() > 0 ==> (r matches ListStep::Entry(e) && entry_view(e)
                == old(self)@.pending[0] && final(self)@ == pop_state(old(self)@)),
            old(self)@.pending.len() == 0 && !old(self)@.done ==> (r matches ListStep::Fetch(q)
                && q@.method == Method::Get && q@.url == list_url(
                backend@.endpoint,
                backend@.root,
                old(self)@.path,
                old(self)@.marker,
            ) && q@.headers.len() == 0 && final(self)@ == old(self)@),
            old(self)@.pending.len() == 0 && old(self)@.done ==> (r is End && final(self)@ == old(
                self,
            )@),
    {
        if self.needs_page() {
            return ListStep::Fetch(self.page_request(backend));
        }
        match self.next_entry() {
            Some(e) => ListStep::Entry(e),
            None => ListStep::End,
        }
    }

    /// Hands out the next pending entry, if any.
    pub fn next_entry(&mut self) -> (r: Option<DirEntry>)
        requires
            old(self).wf(),
        ensures
            final(self).wf(),
            old(self)@.pending.len() > 0 ==> (r matches Some(e) && entry_view(e)
                == old(self)@.pending[0] && final(self)@ == pop_state(old(self)@)),
            old(self)@.pending.len() == 0 ==> r is None && final(self)@ == old(self)@,
    {
        if self.pos >= self.buffer.len() {
            return None;
        }
        let e = DirEntry { mode: self.buffer[self.pos].mode, path: self.buffer[self.pos].path.clone() };
        self.pos = self.pos + 1;
        proof {
            assert(final(self)@.pending =~= old(self)@.pending.drop_first());
        }
        Some(e)
    }

    fn entries_of(root: &str, keys: &Vec<String>, mode: ObjectMode) -> (r: Option<Vec<DirEntry>>)
        requires
            valid_root(root@),
        ensures
            r matches Some(v) ==> v@.map_values(|e: DirEntry| entry_view(e)) == keys_entries(
                root@,
                keys@.map_values(|s: String| s@),
                mode,
            ),
            r is None <==> exists|i: int| 0 <= i < keys@.len() && (#[trigger] rel_path(root@, keys@[i]@)) is None,
    {
        let ghost ks = keys@.map_values(|s: String| s@);
        let mut out: Vec<DirEntry> = Vec::new();
        let mut i: usize = 0;
        while i < keys.len()
            invariant
                i <= keys@.len(),
                valid_root(root@),
                ks == keys@.map_values(|s: String| s@),
                out@.map_values(|e: DirEntry| entry_view(e)) == keys_entries(root@, ks.subrange(0, i as int), mode),
                forall|j: int| 0 <= j < i ==> (#[trigger] rel_path(root@, keys@[j]@)) is Some,
            decreases keys@.len() - i,
        {
            match build_rel_path(root, keys[i].as_str()) {
                Some(p) => {
                    let ghost before = out@.map_values(|e: DirEntry| entry_view(e));
                    out.push(DirEntry { mode, path: p });
                    proof {
                        assert(ks[i as int] == keys@[i as int]@);
                        assert(out@.map_values(|e: DirEntry| entry_view(e)) =~= before.push((mode, p@)));
                        assert(ks.subrange(0, i + 1) =~= ks.subrange(0, i as int).push(ks[i as int]));
                        assert(out@.map_values(|e: DirEntry| entry_view(e)) =~= keys_entries(
                            root@,
                            ks.subrange(0, i + 1),
                            mode,
                        ));
                    }
                },
                None => {
                    return None;
                },
            }
            i = i + 1;
        }
        proof {
            assert(ks.subrange(0, keys@.len() as int) =~= ks);
        }
        Some(out)
    }

    /// Takes in the next page. Fails, and leaves the listing as it was, when
    /// the page holds a key outside the root.
    pub fn ingest(&mut self, page: ListPage) -> (r: Result<(), ObsError>)
        requires
            old(self).wf(),
            old(self)@.pending.len() == 0,
        ensures
            final(self).wf(),
            r is Ok <==> page_under_root(old(self)@.root, page@),
            r is Ok ==> final(self)@ == ingest_state(old(self)@, page@),
            r matches Err(e) ==> e.kind == ErrorKind::KeyOutsideRoot && e.op == Operation::List
                && e.path@ == old(self)@.path && final(self)@ == old(self)@,
    {
        let dirs = ListCursor::entries_of(self.root.as_str(), &page.common_prefixes, ObjectMode::Dir);
        let files = ListCursor::entries_of(self.root.as_str(), &page.contents, ObjectMode::File);
        proof {
            let root = old(self)@.root;
            assert forall|i: int| 0 <= i < page@.prefixes.len() implies page@.prefixes[i]
                == page.common_prefixes@[i]@ by {}
            assert forall|i: int| 0 <= i < page@.contents.len() implies page@.contents[i]
                == page.contents@[i]@ by {}
            if dirs is None {
                let i = choose|i: int| 0 <= i < page.common_prefixes@.len() && (#[trigger] rel_path(root, page.common_prefixes@[i]@)) is None;
                assert(rel_path(root, page@.prefixes[i]) is None);
            }
            if files is None {
                let i = choose|i: int| 0 <= i < page.contents@.len() && (#[trigger] rel_path(root, page.contents@[i]@)) is None;
                assert(rel_path(root, page@.contents[i]) is None);
            }
            if dirs is Some && files is Some {
                assert forall|i: int| 0 <= i < page@.prefixes.len() implies (#[trigger] rel_path(root, page@.prefixes[i])) is Some by {
                    assert(page@.prefixes[i] == page.common_prefixes@[i]@);
                }
                assert forall|i: int| 0 <= i < page@.contents.len() implies (#[trigger] rel_path(root, page@.contents[i])) is Some by {
                    assert(page@.contents[i] == page.contents@[i]@);
                }
            }
        }
        match (dirs, files) {
            (Some(mut d), Some(mut f)) => {
                let ghost dv = d@.map_values(|e: DirEntry| entry_view(e));
                let ghost fv = f@.map_values(|e: DirEntry| entry_view(e));
                d.append(&mut f);
                proof {
                    assert(d@.map_values(|e: DirEntry| entry_view(e)) =~= dv + fv);
                    assert(d@.subrange(0, d@.len() as int) =~= d@);
                    assert(old(self)@.pending + page_entries(old(self)@.root, page@) =~= dv + fv);
                }
                self.buffer = d;
                self.pos = 0;
                if page.is_truncated {
                    self.marker = page.next_marker;
                }
                self.done = !page.is_truncated;
                Ok(())
            },
            _ => Err(
                ObsError {
                    kind: ErrorKind::KeyOutsideRoot,
                    op: Operation::List,
                    path: self.path.clone(),
                    status: None,
                    message: String::from_str("listed key lies outside the root"),
                },
            ),
        }
    }
}

} // verus!
