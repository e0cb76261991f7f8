//! Screen areas, tables of rows, and the pages of windows that the interface lays out.

use vstd::prelude::*;

verus! {

/// A rectangle of the screen: its corner and its size.
#[derive(Copy, Clone, Debug, PartialEq, Eq)]
pub struct Rect {
    pub x: u16,
    pub y: u16,
    pub w: u16,
    pub h: u16,
}

impl Rect {
    /// The rectangle at (x, y) of size (w, h).
    pub fn new(x: u16, y: u16, w: u16, h: u16) -> (r: Rect)
        ensures
            r == (Rect { x, y, w, h }),
    {
        Rect { x, y, w, h }
    }
}

/// Rows of cells, one of which is selected once there is any.
#[derive(Default)]
pub struct Table {
    pub selected_row: Option<u16>,
    pub rows: Vec<Vec<String>>,
}

impl Table {
    /// Appends a row; the first row appended becomes the selected one.
    pub fn push_row(&mut self, row: Vec<String>)
        ensures
            final(self).rows@ == old(self).rows@.push(row),
            final(self).selected_row == (if old(self).selected_row is None {
                Some(0u16)
            } else {
                old(self).selected_row
            }),
    {
        self.rows.push(row);
        if self.selected_row.is_none() {
            self.selected_row = Some(0);
        }
    }
}

/// The number of a window in a layout.
#[derive(Copy, Clone, Debug, PartialEq, Eq, Hash, Structural)]
pub struct LayoutId(pub usize);

/// The number of a page.
#[derive(Copy, Clone, Debug, PartialEq, Eq, Hash, Structural)]
pub struct PageId(pub usize);

/// How two windows are split.
#[derive(Copy, Clone, Debug, PartialEq, Eq)]
pub enum Dir {
    H,
    V,
}

/// The windows of a page: its root window and the splits below each window.
pub struct PageGraph {
    pub root: LayoutId,
    pub adj: Vec<(LayoutId, Vec<(LayoutId, Dir)>)>,
}

impl PageGraph {
    /// A page whose only window is `id`.
    pub fn new(id: LayoutId) -> (r: PageGraph)
        ensures
            r.root == id,
            r.adj@.len() == 0,
    {
        PageGraph { root: id, adj: Vec::new() }
    }
}

/// The pages of windows, in order, and which window is active.
#[derive(Default)]
pub struct WindowLayout {
    ctr: usize,
    currently_active: Option<LayoutId>,
    ids: Vec<(LayoutId, PageId)>,
    page_order: Vec<PageId>,
    pages: Vec<(PageId, PageGraph)>,
}

/// The value of the first pair whose key is `k`.
pub open spec fn lookup<K, V>(m: Seq<(K, V)>, k: K) -> Option<V>
    decreases m.len(),
{
    if m.len() == 0 {
        None
    } else if m[0].0 == k {
        Some(m[0].1)
    } else {
        lookup(m.drop_first(), k)
    }
}

impl WindowLayout {
    /// The next number to hand out.
    pub closed spec fn counter(&self) -> nat {
        self.ctr as nat
    }

    pub closed spec fn active(&self) -> Option<LayoutId> {
        self.currently_active
    }

    pub closed spec fn pages(&self) -> Seq<PageId> {
        self.page_order@
    }

    /// The page of each window.
    pub closed spec fn page_of(&self) -> Seq<(LayoutId, PageId)> {
        self.ids@
    }

    /// The root window of each page.
    pub closed spec fn roots(&self) -> Seq<(PageId, LayoutId)> {
        self.pages@.map_values(|p: (PageId, PageGraph)| (p.0, p.1.root))
    }

    /// Adds a page with one window; the window becomes active where none is. Gives the
    /// numbers of the window and of the page, the next two of the counter.
    pub fn new_page(&mut self) -> (r: (LayoutId, PageId))
        requires
            old(self).counter() + 2 <= usize::MAX,
        ensures
            r.0 == LayoutId(old(self).counter() as usize),
            r.1 == PageId((old(self).counter() + 1) as usize),
            final(self).counter() == old(self).counter() + 2,
            final(self).pages() == old(self).pages().push(r.1),
            final(self).page_of() == old(self).page_of().push((r.0, r.1)),
            final(self).roots() == old(self).roots().push((r.1, r.0)),
            final(self).active() == (if old(self).active() is None {
                Some(r.0)
            } else {
                old(self).active()
            }),
    {
        let id = LayoutId(self.ctr);
        self.ctr += 1;
        let pg = PageGraph::new(id);
        let pid = PageId(self.ctr);
        self.ctr += 1;
        self.pages.push((pid, pg));
        self.page_order.push(pid);
        self.ids.push((id, pid));
        if self.currently_active.is_none() {
            self.currently_active = Some(id);
        }
        assert(self.roots() =~= old(self).roots().push((pid, id)));
        (id, pid)
    }

    /// The pages, in the order they were added.
    pub fn list_pages(&self) -> (r: &[PageId])
        ensures
            r@ == self.pages(),
    {
        self.page_order.as_slice()
    }

    /// The windows visible on the active page, each with the area it takes: the page's root
    /// window takes the whole area.
    pub fn visible_windows(&self, area: Rect) -> (r: Vec<(LayoutId, Rect)>)
        ensures
            r@ == (match self.active() {
                Some(a) => match lookup(self.page_of(), a) {
                    Some(p) => match lookup(self.roots(), p) {
                        Some(root) => seq![(root, area)],
                        None => Seq::empty(),
                    },
                    None => Seq::empty(),
                },
                None => Seq::empty(),
            }),
    {
        let mut out: Vec<(LayoutId, Rect)> = Vec::new();
        if let Some(a) = self.currently_active {
            if let Some(p) = self.find_page(a) {
                if let Some(root) = self.find_root(p) {
                    out.push((root, area));
                }
            }
        }
        assert(out@ =~= (match self.active() {
            Some(a) => match lookup(self.page_of(), a) {
                Some(p) => match lookup(self.roots(), p) {
                    Some(root) => seq![(root, area)],
                    None => Seq::empty(),
                },
                None => Seq::empty(),
            },
            None => Seq::empty(),
        }));
        out
    }

    fn find_page(&self, a: LayoutId) -> (r: Option<PageId>)
        ensures
            r == lookup(self.page_of(), a),
    {
        let mut i: usize = 0;
        assert(self.ids@.subrange(0, self.ids@.len() as int) =~= self.ids@);
        while i < self.ids.len()
            invariant
                i <= self.ids@.len(),
                lookup(self.ids@, a) == lookup(self.ids@.subrange(i as int, self.ids@.len() as int), a),
            decreases self.ids@.len() - i,
        {
            assert(self.ids@.subrange(i as int, self.ids@.len() as int).drop_first()
                =~= self.ids@.subrange(i + 1, self.ids@.len() as int));
            if self.ids[i].0 == a {
                return Some(self.ids[i].1);
            }
            i += 1;
        }
        assert(self.ids@.subrange(i as int, self.ids@.len() as int) =~= Seq::<(LayoutId, PageId)>::empty());
        None
    }

    fn find_root(&self, p: PageId) -> (r: Option<LayoutId>)
        ensures
            r == lookup(self.roots(), p),
    {
        let ghost roots = self.roots();
        let mut j: usize = 0;
        assert(roots.subrange(0, roots.len() as int) =~= roots);
        while j < self.pages.len()
            invariant
                j <= self.pages@.len(),
                roots == self.roots(),
                roots.len() == self.pages@.len(),
                lookup(roots, p) == lookup(roots.subrange(j as int, roots.len() as int), p),
            decreases self.pages@.len() - j,
        {
            assert(roots.subrange(j as int, roots.len() as int).drop_first()
                =~= roots.subrange(j + 1, roots.len() as int));
            assert(roots[j as int] == (self.pages@[j as int].0, self.pages@[j as int].1.root));
            if self.pages[j].0 == p {
                return Some(self.pages[j].1.root);
            }
            j += 1;
        }
        assert(roots.subrange(j as int, roots.len() as int) =~= Seq::<(PageId, LayoutId)>::empty());
        None
    }
}

} // verus!
