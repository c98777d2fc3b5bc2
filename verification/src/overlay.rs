//! Overlays: styled byte ranges drawn over a buffer's text, grouped by namespace.

use vstd::prelude::*;
use crate::draw::Color;

verus! {

/// A group of overlays that are cleared together.
pub struct OverlayNamespace {
    pub name: String,
}

impl OverlayNamespace {
    pub fn from_string(name: String) -> (r: Self)
        ensures
            r.name@ == name@,
    {
        OverlayNamespace { name }
    }
}

/// How an overlay changes the text it covers.
#[derive(Clone, Copy, Debug, PartialEq, Eq, Structural)]
pub enum OverlayFace {
    Background { color: Color },
    Foreground { color: Color },
}

/// Identifies an added overlay, for removing it later.
#[derive(Clone, Copy, Debug, PartialEq, Eq, Structural)]
pub struct OverlayHandle(pub u64);

/// A styled range of bytes.
pub struct Overlay {
    pub handle: OverlayHandle,
    pub namespace: Option<OverlayNamespace>,
    pub start: usize,
    pub end: usize,
    pub face: OverlayFace,
    pub priority: i32,
    pub message: Option<String>,
}

/// Namespace names of an overlay (as character sequences).
pub open spec fn namespace_name(ns: Option<OverlayNamespace>) -> Option<Seq<char>> {
    match ns {
        Some(n) => Some(n.name@),
        None => None,
    }
}

/// The overlays of a buffer; handles are given out in increasing order.
pub struct OverlayManager {
    pub overlays: Vec<Overlay>,
    pub next_handle: u64,
}

/// Overlays not in namespace `name`, in order.
pub open spec fn outside_namespace(s: Seq<Overlay>, name: Seq<char>) -> Seq<Overlay> {
    s.filter(|o: Overlay| namespace_name(o.namespace) != Some(name))
}

/// Overlays whose handle is not `h`, in order.
pub open spec fn without_handle(s: Seq<Overlay>, h: OverlayHandle) -> Seq<Overlay> {
    s.filter(|o: Overlay| o.handle != h)
}

/// Every overlay's handle was handed out before `next`.
pub open spec fn handles_below(os: Seq<Overlay>, next: u64) -> bool {
    forall|i: int| 0 <= i < os.len() ==> (#[trigger] os[i]).handle.0 < next
}

/// Keeping some of the overlays keeps their handles below `next`.
proof fn lemma_filter_handles_below(os: Seq<Overlay>, pred: spec_fn(Overlay) -> bool, next: u64)
    requires
        handles_below(os, next),
    ensures
        handles_below(os.filter(pred), next),
{
    assert forall|i: int| 0 <= i < os.filter(pred).len() implies (#[trigger] os.filter(pred)[i]).handle.0 < next by {
        os.lemma_filter_contains_rev(pred, os.filter(pred)[i]);
    }
}

/// Keeping the overlays that all pass keeps them all.
proof fn lemma_filter_keeps_all(os: Seq<Overlay>, pred: spec_fn(Overlay) -> bool)
    requires
        forall|i: int| 0 <= i < os.len() ==> #[trigger] pred(os[i]),
    ensures
        os.filter(pred) == os,
    decreases os.len(),
{
    if os.len() > 0 {
        let init = os.drop_last();
        lemma_filter_keeps_all(init, pred);
        assert(init.push(os.last()) =~= os);
        init.lemma_filter_push(os.last(), pred);
    } else {
        assert(os.filter(pred) =~= os);
    }
}

/// Removing an overlay by the handle that adding it returned gives back the
/// overlays from before, whose handles were all handed out earlier.
pub proof fn law_add_then_remove(os: Seq<Overlay>, next: u64, o: Overlay)
    requires
        handles_below(os, next),
    ensures
        without_handle(os.push(Overlay { handle: OverlayHandle(next), ..o }), OverlayHandle(next)) == os,
{
    let added = Overlay { handle: OverlayHandle(next), ..o };
    let pred = |x: Overlay| x.handle != OverlayHandle(next);
    os.lemma_filter_push(added, pred);
    assert forall|i: int| 0 <= i < os.len() implies #[trigger] pred(os[i]) by {
        assert(os[i].handle.0 < next);
    }
    lemma_filter_keeps_all(os, pred);
}

impl OverlayManager {
    /// No overlays.
    pub fn new() -> (r: Self)
        ensures
            r.overlays@.len() == 0,
            r.next_handle == 0,
            handles_below(r.overlays@, r.next_handle),
    {
        OverlayManager { overlays: Vec::new(), next_handle: 0 }
    }

    /// Add `overlay` under a fresh handle, which is returned.
    pub fn add(&mut self, overlay: Overlay) -> (r: OverlayHandle)
        requires
            old(self).next_handle < u64::MAX,
        ensures
            r == OverlayHandle(old(self).next_handle),
            final(self).next_handle == old(self).next_handle + 1,
            final(self).overlays@ == old(self).overlays@.push(Overlay { handle: r, ..overlay }),
            handles_below(old(self).overlays@, old(self).next_handle) ==> handles_below(final(self).overlays@,
                final(self).next_handle),
    {
        let handle = OverlayHandle(self.next_handle);
        self.next_handle = self.next_handle + 1;
        let mut o = overlay;
        o.handle = handle;
        self.overlays.push(o);
        handle
    }

    /// Remove the overlays in namespace `ns`.
    pub fn clear_namespace(&mut self, ns: &OverlayNamespace)
        ensures
            final(self).overlays@ == outside_namespace(old(self).overlays@, ns.name@),
            final(self).next_handle == old(self).next_handle,
            handles_below(old(self).overlays@, old(self).next_handle) ==> handles_below(final(self).overlays@,
                final(self).next_handle),
    {
        let ghost pred = |o: Overlay| namespace_name(o.namespace) != Some(ns.name@);
        let ghost orig = self.overlays@;
        let mut rest: Vec<Overlay> = Vec::new();
        let mut items = Vec::new();
        std::mem::swap(&mut items, &mut self.overlays);
        let n = items.len();
        let mut k: usize = 0;
        while items.len() > 0
            invariant
                n == orig.len(),
                k <= n,
                items@ == orig.subrange(k as int, n as int),
                rest@ == orig.subrange(0, k as int).filter(pred),
                pred == (|o: Overlay| namespace_name(o.namespace) != Some(ns.name@)),
            decreases items@.len(),
        {
            let o = items.remove(0);
            proof {
                assert(o == orig[k as int]);
                assert(items@ =~= orig.subrange(k + 1, n as int));
                assert(orig.subrange(0, k + 1) =~= orig.subrange(0, k as int).push(o));
                orig.subrange(0, k as int).lemma_filter_push(o, pred);
            }
            let keep = match &o.namespace {
                Some(on) => on.name != ns.name,
                None => true,
            };
            if keep {
                rest.push(o);
            }
            k += 1;
        }
        proof {
            assert(orig.subrange(0, n as int) =~= orig);
            if handles_below(orig, self.next_handle) {
                lemma_filter_handles_below(orig, pred, self.next_handle);
            }
        }
        self.overlays = rest;
    }

    /// Remove the overlay with handle `handle`.
    pub fn remove_by_handle(&mut self, handle: OverlayHandle)
        ensures
            final(self).overlays@ == without_handle(old(self).overlays@, handle),
            final(self).next_handle == old(self).next_handle,
            handles_below(old(self).overlays@, old(self).next_handle) ==> handles_below(final(self).overlays@,
                final(self).next_handle),
    {
        let ghost pred = |o: Overlay| o.handle != handle;
        let ghost orig = self.overlays@;
        let mut rest: Vec<Overlay> = Vec::new();
        let mut items = Vec::new();
        std::mem::swap(&mut items, &mut self.overlays);
        let n = items.len();
        let mut k: usize = 0;
        while items.len() > 0
            invariant
                n == orig.len(),
                k <= n,
                items@ == orig.subrange(k as int, n as int),
                rest@ == orig.subrange(0, k as int).filter(pred),
                pred == (|o: Overlay| o.handle != handle),
            decreases items@.len(),
        {
            let o = items.remove(0);
            proof {
                assert(o == orig[k as int]);
                assert(items@ =~= orig.subrange(k + 1, n as int));
                assert(orig.subrange(0, k + 1) =~= orig.subrange(0, k as int).push(o));
                orig.subrange(0, k as int).lemma_filter_push(o, pred);
            }
            if o.handle != handle {
                rest.push(o);
            }
            k += 1;
        }
        proof {
            assert(orig.subrange(0, n as int) =~= orig);
            if handles_below(orig, self.next_handle) {
                lemma_filter_handles_below(orig, pred, self.next_handle);
            }
        }
        self.overlays = rest;
    }

    /// All overlays, in the order they were added.
    pub fn all(&self) -> (r: &Vec<Overlay>)
        ensures
            r@ == self.overlays@,
    {
        &self.overlays
    }
}

} // verus!
