//! Window registry.
//!
//! Top-level windows are addressed by a process-wide unique label.  The
//! registry decides what the window capability must do; it never holds
//! two entries with one label, because a creation request for an existing
//! label is redirected to focusing that window.  Closing an absent label
//! is a no-op, while focusing an absent label is an error: the asymmetry
//! is deliberate and preserved.

use vstd::prelude::*;
use crate::text::str_eq;

verus! {

/// A window creation request as the frontend sends it; missing dimensions
/// fall back to the default window size.
pub struct WindowConfig {
    pub label: String,
    pub url: String,
    pub title: String,
    pub width: Option<u32>,
    pub height: Option<u32>,
}

/// One open window as the registry tracks it, dimensions resolved.
pub struct WindowEntry {
    pub label: String,
    pub url: String,
    pub title: String,
    pub width: u32,
    pub height: u32,
}

/// What the window capability must do for a creation request: build a new
/// window, or focus the one already open under the label.
pub enum WindowAction {
    Create(WindowEntry),
    Focus(String),
}

/// Only focusing can fail, and only because the label is not open.
#[derive(Debug)]
pub enum RegistryError {
    NotFound(String),
}

pub open spec fn spec_dim(d: Option<u32>, fallback: u32) -> u32 {
    match d {
        Some(v) => v,
        None => fallback,
    }
}

/// The entry a creation request resolves to.
pub open spec fn spec_entry_of(config: WindowConfig) -> WindowEntry {
    WindowEntry {
        label: config.label,
        url: config.url,
        title: config.title,
        width: spec_dim(config.width, 800),
        height: spec_dim(config.height, 600),
    }
}

/// Index of the first entry carrying `l`, or `ws.len()` if none does.
pub open spec fn spec_find(ws: Seq<WindowEntry>, l: Seq<char>) -> int
    decreases ws.len(),
{
    if ws.len() == 0 {
        0
    } else if ws[0].label@ == l {
        0
    } else {
        1 + spec_find(ws.drop_first(), l)
    }
}

pub proof fn lemma_spec_find(ws: Seq<WindowEntry>, l: Seq<char>)
    ensures
        0 <= spec_find(ws, l) <= ws.len(),
        spec_find(ws, l) < ws.len() ==> ws[spec_find(ws, l)].label@ == l,
        forall|j: int| 0 <= j < spec_find(ws, l) ==> ws[j].label@ != l,
    decreases ws.len(),
{
    if ws.len() > 0 && ws[0].label@ != l {
        lemma_spec_find(ws.drop_first(), l);
        assert forall|j: int| 0 <= j < spec_find(ws, l) implies ws[j].label@ != l by {
            if j > 0 {
                assert(ws.drop_first()[j - 1] == ws[j]);
            }
        }
    }
}

/// How many entries carry `l`.
pub open spec fn count_label(ws: Seq<WindowEntry>, l: Seq<char>) -> nat
    decreases ws.len(),
{
    if ws.len() == 0 {
        0
    } else {
        count_label(ws.drop_first(), l) + (if ws[0].label@ == l {
            1nat
        } else {
            0nat
        })
    }
}

pub open spec fn spec_has_label(ws: Seq<WindowEntry>, l: Seq<char>) -> bool {
    exists|i: int| 0 <= i < ws.len() && ws[i].label@ == l
}

/// No two entries share a label.
pub open spec fn unique_labels(ws: Seq<WindowEntry>) -> bool {
    forall|i: int, j: int| 0 <= i < j < ws.len() ==> ws[i].label@ != ws[j].label@
}

/// The windows after a creation request: unchanged when the label is
/// already open, extended by the resolved entry otherwise.
pub open spec fn spec_create(ws: Seq<WindowEntry>, e: WindowEntry) -> Seq<WindowEntry> {
    if spec_has_label(ws, e.label@) {
        ws
    } else {
        ws.push(e)
    }
}

pub proof fn lemma_count_label_has(ws: Seq<WindowEntry>, l: Seq<char>)
    ensures
        spec_has_label(ws, l) <==> count_label(ws, l) >= 1,
    decreases ws.len(),
{
    if ws.len() > 0 {
        lemma_count_label_has(ws.drop_first(), l);
        if spec_has_label(ws, l) && ws[0].label@ != l {
            let i = choose|i: int| 0 <= i < ws.len() && ws[i].label@ == l;
            assert(ws.drop_first()[i - 1] == ws[i]);
        }
        if spec_has_label(ws.drop_first(), l) {
            let i = choose|i: int| 0 <= i < ws.drop_first().len() && ws.drop_first()[i].label@ == l;
            assert(ws[i + 1] == ws.drop_first()[i]);
        }
    }
}

pub proof fn lemma_unique_count_label(ws: Seq<WindowEntry>, l: Seq<char>)
    requires
        unique_labels(ws),
    ensures
        count_label(ws, l) <= 1,
    decreases ws.len(),
{
    if ws.len() > 0 {
        let t = ws.drop_first();
        assert forall|i: int, j: int| 0 <= i < j < t.len() implies t[i].label@ != t[j].label@ by {
            assert(t[i] == ws[i + 1]);
            assert(t[j] == ws[j + 1]);
        }
        lemma_unique_count_label(t, l);
        if ws[0].label@ == l && count_label(t, l) >= 1 {
            lemma_count_label_has(t, l);
            let i = choose|i: int| 0 <= i < t.len() && t[i].label@ == l;
            assert(ws[i + 1] == t[i]);
            assert(ws[0].label@ == ws[i + 1].label@);
            assert(false);
        }
    }
}

/// The open windows of the process, by unique label.
pub struct WindowRegistry {
    pub windows: Vec<WindowEntry>,
}

impl WindowRegistry {
    /// Labels currently open, in creation order.
    pub open spec fn labels(self) -> Seq<Seq<char>> {
        self.windows@.map_values(|w: WindowEntry| w.label@)
    }

    pub open spec fn has_label(self, l: Seq<char>) -> bool {
        spec_has_label(self.windows@, l)
    }

    /// The registry's invariant: labels are unique.
    pub open spec fn wf(self) -> bool {
        unique_labels(self.windows@)
    }

    pub fn new() -> (r: Self)
        ensures
            r.windows@.len() == 0,
            r.wf(),
    {
        WindowRegistry { windows: Vec::new() }
    }

    /// First index holding `label`, if any.
    fn find(&self, label: &str) -> (r: Option<usize>)
        ensures
            match r {
                Some(i) => i == spec_find(self.windows@, label@) && i < self.windows@.len(),
                None => !self.has_label(label@),
            },
    {
        let mut i: usize = 0;
        while i < self.windows.len()
            invariant
                0 <= i <= self.windows@.len(),
                forall|j: int| 0 <= j < i ==> self.windows@[j].label@ != label@,
            decreases self.windows@.len() - i,
        {
            if str_eq(self.windows[i].label.as_str(), label) {
                proof {
                    lemma_spec_find_is(self.windows@, label@, i as int);
                }
                return Some(i);
            }
            i += 1;
        }
        None
    }

    /// Whether a window is open under `label`.
    pub fn contains(&self, label: &str) -> (b: bool)
        ensures
            b == self.has_label(label@),
    {
        match self.find(label) {
            Some(_) => {
                proof {
                    lemma_spec_find(self.windows@, label@);
                }
                true
            },
            None => false,
        }
    }

    /// Handles a creation request.  An already-open label leaves the
    /// registry alone and asks the capability to focus that window; a new
    /// label is recorded and the capability is asked to build the window.
    pub fn create(&mut self, config: WindowConfig) -> (act: WindowAction)
        requires
            old(self).wf(),
        ensures
            final(self).wf(),
            final(self).windows@ == spec_create(old(self).windows@, spec_entry_of(config)),
            old(self).has_label(config.label@) ==> (act matches WindowAction::Focus(l) && l@
                == config.label@),
            !old(self).has_label(config.label@) ==> (act matches WindowAction::Create(e) && e
                == spec_entry_of(config)),
    {
        match self.find(config.label.as_str()) {
            Some(i) => {
                proof {
                    lemma_spec_find(self.windows@, config.label@);
                }
                WindowAction::Focus(config.label)
            },
            None => {
                let width = match config.width {
                    Some(v) => v,
                    None => 800,
                };
                let height = match config.height {
                    Some(v) => v,
                    None => 600,
                };
                let stored = WindowEntry {
                    label: config.label.clone(),
                    url: config.url.clone(),
                    title: config.title.clone(),
                    width,
                    height,
                };
                let ghost old_ws = self.windows@;
                self.windows.push(stored);
                proof {
                    assert forall|i: int, j: int|
                        0 <= i < j < self.windows@.len() implies self.windows@[i].label@
                        != self.windows@[j].label@ by {
                        if j < self.windows@.len() - 1 {
                            assert(self.windows@[i] == old_ws[i]);
                            assert(self.windows@[j] == old_ws[j]);
                        } else {
                            assert(self.windows@[j].label@ == config.label@);
                        }
                    }
                }
                WindowAction::Create(
                    WindowEntry {
                        label: config.label,
                        url: config.url,
                        title: config.title,
                        width,
                        height,
                    },
                )
            },
        }
    }

    /// Closes the window under `label` if one is open; an absent label is
    /// not an error.  Returns whether the capability must close a window.
    pub fn close(&mut self, label: &str) -> (closed: bool)
        requires
            old(self).wf(),
        ensures
            final(self).wf(),
            closed == old(self).has_label(label@),
            closed ==> final(self).windows@ == old(self).windows@.remove(
                spec_find(old(self).windows@, label@),
            ),
            !closed ==> *final(self) == *old(self),
    {
        match self.find(label) {
            Some(i) => {
                proof {
                    lemma_spec_find(self.windows@, label@);
                }
                let ghost old_ws = self.windows@;
                self.windows.remove(i);
                proof {
                    assert forall|p: int, q: int|
                        0 <= p < q < self.windows@.len() implies self.windows@[p].label@
                        != self.windows@[q].label@ by {
                        let p0 = if p < i { p } else { p + 1 };
                        let q0 = if q < i { q } else { q + 1 };
                        assert(self.windows@[p] == old_ws[p0]);
                        assert(self.windows@[q] == old_ws[q0]);
                    }
                }
                true
            },
            None => false,
        }
    }

    /// Focusing is strict: an absent label is a caller error worth
    /// surfacing, unlike `close`.
    pub fn focus(&self, label: &str) -> (r: Result<(), RegistryError>)
        ensures
            r is Ok <==> self.has_label(label@),
            r matches Err(RegistryError::NotFound(l)) ==> l@ == label@,
    {
        match self.find(label) {
            Some(i) => {
                proof {
                    lemma_spec_find(self.windows@, label@);
                }
                Ok(())
            },
            None => Err(RegistryError::NotFound(label.to_owned())),
        }
    }

    /// All open labels, in creation order.
    pub fn list(&self) -> (r: Vec<String>)
        ensures
            r.deep_view() == self.labels(),
    {
        let mut out: Vec<String> = Vec::new();
        let mut i: usize = 0;
        while i < self.windows.len()
            invariant
                0 <= i <= self.windows@.len(),
                out.deep_view() == self.windows@.map_values(|w: WindowEntry| w.label@).take(
                    i as int,
                ),
            decreases self.windows@.len() - i,
        {
            let ghost prev = out.deep_view();
            out.push(self.windows[i].label.clone());
            proof {
                assert(out.deep_view() =~= prev.push(self.windows@[i as int].label@));
                assert(out.deep_view() =~= self.windows@.map_values(
                    |w: WindowEntry| w.label@,
                ).take(i + 1 as int));
            }
            i += 1;
        }
        proof {
            assert(out.deep_view() =~= self.labels());
        }
        out
    }
}

proof fn lemma_spec_find_is(ws: Seq<WindowEntry>, l: Seq<char>, k: int)
    requires
        0 <= k <= ws.len(),
        forall|j: int| 0 <= j < k ==> ws[j].label@ != l,
        k < ws.len() ==> ws[k].label@ == l,
    ensures
        spec_find(ws, l) == k,
    decreases ws.len(),
{
    if ws.len() > 0 && ws[0].label@ != l {
        let t = ws.drop_first();
        assert forall|j: int| 0 <= j < k - 1 implies t[j].label@ != l by {
            assert(t[j] == ws[j + 1]);
        }
        assert(k - 1 < t.len() ==> t[k - 1] == ws[k]);
        lemma_spec_find_is(t, l, k - 1);
    }
}

/// A second creation request under a label that is already open changes
/// nothing: exactly one window carries the label afterwards, and the
/// request resolves to focusing it rather than creating a duplicate.
pub proof fn lemma_second_create_focuses(ws: Seq<WindowEntry>, e1: WindowEntry, e2: WindowEntry)
    requires
        unique_labels(ws),
        e1.label@ == e2.label@,
    ensures
        spec_create(spec_create(ws, e1), e2) == spec_create(ws, e1),
        spec_has_label(spec_create(ws, e1), e2.label@),
        count_label(spec_create(spec_create(ws, e1), e2), e2.label@) == 1,
{
    let ws1 = spec_create(ws, e1);
    let l = e1.label@;
    if spec_has_label(ws, l) {
        lemma_count_label_has(ws, l);
        lemma_unique_count_label(ws, l);
    } else {
        assert(ws1 == ws.push(e1));
        assert(ws1[ws.len() as int].label@ == l);
        assert(spec_has_label(ws1, l));
        lemma_count_push(ws, e1, l);
        lemma_count_label_has(ws, l);
    }
    assert(spec_create(ws1, e2) == ws1);
}

/// Appending one entry raises the count of its label by one and leaves
/// other labels' counts alone.
pub proof fn lemma_count_push(ws: Seq<WindowEntry>, e: WindowEntry, l: Seq<char>)
    ensures
        count_label(ws.push(e), l) == count_label(ws, l) + (if e.label@ == l {
            1nat
        } else {
            0nat
        }),
    decreases ws.len(),
{
    if ws.len() == 0 {
        assert(ws.push(e)[0] == e);
        assert(ws.push(e).drop_first() =~= Seq::<WindowEntry>::empty());
        assert(count_label(Seq::<WindowEntry>::empty(), l) == 0);
    } else {
        assert(ws.push(e)[0] == ws[0]);
        assert(ws.push(e).drop_first() =~= ws.drop_first().push(e));
        lemma_count_push(ws.drop_first(), e, l);
    }
}

} // verus!
