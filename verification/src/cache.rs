//! Memoized render height for a single content block.

use vstd::prelude::*;

verus! {

/// Cache of the rendered line count of one block for one render width.
///
/// At most one entry is kept: render width changes only on terminal resize
/// and content edits invalidate everything anyway, so the cache is cleared
/// rather than patched. An entry is returned only if it was stored for
/// exactly the requested width and no invalidation happened since.
pub struct BlockCache {
    entry: Option<(u16, usize)>,
}

impl BlockCache {
    /// The cached line count for `width`, if one is stored.
    pub closed spec fn spec_height_at(&self, width: u16) -> Option<usize> {
        match self.entry {
            Some((w, h)) => if w == width {
                Some(h)
            } else {
                None
            },
            None => None,
        }
    }

    /// True if a fresh entry for `width` is stored.
    pub open spec fn valid_at(&self, width: u16) -> bool {
        self.spec_height_at(width) is Some
    }

    /// The cached line count for `width`, taking a miss as zero lines.
    pub open spec fn height_or_zero(&self, width: u16) -> nat {
        match self.spec_height_at(width) {
            Some(h) => h as nat,
            None => 0,
        }
    }

    /// An empty cache: no width has a stored height.
    pub fn new() -> (c: BlockCache)
        ensures
            forall|w: u16| c.spec_height_at(w) is None,
    {
        BlockCache { entry: None }
    }

    /// Returns the stored line count exactly when one was recorded for this
    /// width and not invalidated since.
    pub fn height_at(&self, width: u16) -> (r: Option<usize>)
        ensures
            r == self.spec_height_at(width),
    {
        match self.entry {
            Some((w, h)) => if w == width {
                Some(h)
            } else {
                None
            },
            None => None,
        }
    }

    /// Records a fresh render of `height` lines at `width`, replacing
    /// whatever was stored before.
    pub fn store_with_height(&mut self, width: u16, height: usize)
        ensures
            final(self).spec_height_at(width) == Some(height),
            forall|w: u16| w != width ==> final(self).spec_height_at(w) is None,
    {
        self.entry = Some((width, height));
    }

    /// Drops any stored entry; every later lookup misses until a fresh
    /// render is stored.
    pub fn invalidate(&mut self)
        ensures
            forall|w: u16| final(self).spec_height_at(w) is None,
    {
        self.entry = None;
    }
}

impl Default for BlockCache {
    /// A fresh cache with nothing stored.
    fn default() -> (c: Self)
        ensures
            forall|w: u16| c.spec_height_at(w) is None,
    {
        BlockCache { entry: None }
    }
}

} // verus!
