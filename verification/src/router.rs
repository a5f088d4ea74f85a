//! Activation routing.
//!
//! The operating system hands the running process a deep-link URL or a
//! list of file paths to open; neither channel can carry an error back.
//! A deep link that parses is broadcast to every window as a
//! `deep-link` event; one that does not parse is dropped, never an
//! error.  A file-open activation broadcasts a `file-open` event for
//! each path carrying the application's file extension.

use vstd::prelude::*;
use vstd::string::{StrSliceExecFns, StringExecFns};
use crate::dispatch::{Dispatcher, EmissionView, EventPayload, EventTarget, PayloadView, TargetView};
use crate::links::{spec_parse, DeepLink};
use crate::registry::WindowRegistry;
use crate::text::{last_index, lemma_last_index_is};

verus! {

/// Handles a deep-link activation: a parsed link is broadcast as one
/// `deep-link` event carrying the action and parameters; a parse failure
/// is swallowed and the log stands unchanged.
pub fn handle_activation(d: &mut Dispatcher, registry: &WindowRegistry, raw: &str)
    ensures
        match spec_parse(raw@) {
            Ok(am) => final(d)@ == old(d)@.push(
                EmissionView {
                    event: "deep-link"@,
                    target: TargetView::All,
                    payload: PayloadView::Link(am.0, am.1),
                },
            ),
            Err(_) => final(d)@ == old(d)@,
        },
{
    match DeepLink::parse(raw) {
        Ok(link) => {
            let _ = d.emit(
                registry,
                String::from_str("deep-link"),
                EventPayload::Link(link),
                EventTarget::All,
            );
        },
        Err(_) => {},
    }
}

/// Whether a path carries the application's file extension: the final
/// path component has a `.` after its first character and `easymo`
/// after its last `.`.
pub open spec fn has_easymo_ext(p: Seq<char>) -> bool {
    let name = p.subrange(last_index(p, '/') + 1, p.len() as int);
    let d = last_index(name, '.');
    d > 0 && name.subrange(d + 1, name.len() as int) == seq!['e', 'a', 's', 'y', 'm', 'o']
}

/// Decides whether a path names one of the application's files.
pub fn is_easymo_path(path: &str) -> (b: bool)
    ensures
        b == has_easymo_ext(path@),
{
    let n = path.unicode_len();
    // Find the character after the last '/', if any.
    let mut k: usize = n;
    while k > 0 && path.get_char(k - 1) != '/'
        invariant
            0 <= k <= n,
            n == path@.len(),
            forall|j: int| k <= j < n ==> path@[j] != '/',
        decreases k,
    {
        k -= 1;
    }
    proof {
        lemma_last_index_is(path@, '/', k as int - 1);
    }
    let ghost name = path@.subrange(k as int, n as int);
    // Find the character after the last '.' of the name, if any.
    let mut dot: usize = n;
    while dot > k && path.get_char(dot - 1) != '.'
        invariant
            k <= dot <= n,
            n == path@.len(),
            forall|j: int| dot <= j < n ==> path@[j] != '.',
        decreases dot,
    {
        dot -= 1;
    }
    proof {
        assert forall|j: int| dot - 1 - k < j < name.len() implies name[j] != '.' by {
            assert(name[j] == path@[j + k]);
        }
        if dot > k {
            assert(name[dot - 1 - k] == path@[dot - 1]);
        }
        lemma_last_index_is(name, '.', dot as int - 1 - k as int);
    }
    if dot <= k || dot - 1 <= k {
        // No '.' in the name, or the name starts with its only '.'.
        return false;
    }
    if n - dot != 6 {
        proof {
            assert(name.subrange(dot - k as int, name.len() as int).len() != 6);
        }
        return false;
    }
    let b = path.get_char(dot) == 'e' && path.get_char(dot + 1) == 'a' && path.get_char(dot + 2)
        == 's' && path.get_char(dot + 3) == 'y' && path.get_char(dot + 4) == 'm' && path.get_char(
        dot + 5,
    ) == 'o';
    proof {
        let ext = name.subrange(dot - k as int, name.len() as int);
        assert(ext.len() == 6);
        assert forall|j: int| 0 <= j < 6 implies ext[j] == path@[j + dot] by {
            assert(ext[j] == name[j + dot - k]);
            assert(name[j + dot - k] == path@[j + dot]);
        }
        if b {
            assert(ext =~= seq!['e', 'a', 's', 'y', 'm', 'o']);
        } else {
            assert(ext != seq!['e', 'a', 's', 'y', 'm', 'o']) by {
                if ext == seq!['e', 'a', 's', 'y', 'm', 'o'] {
                    assert(path@[dot as int] == 'e');
                    assert(path@[dot + 1] == 'a');
                    assert(path@[dot + 2] == 's');
                    assert(path@[dot + 3] == 'y');
                    assert(path@[dot + 4] == 'm');
                    assert(path@[dot + 5] == 'o');
                }
            }
        }
    }
    b
}

/// The `file-open` broadcasts a list of paths gives rise to, in order:
/// one per path carrying the application's extension.
pub open spec fn file_open_emissions(ps: Seq<Seq<char>>) -> Seq<EmissionView>
    decreases ps.len(),
{
    if ps.len() == 0 {
        Seq::empty()
    } else {
        file_open_emissions(ps.drop_last()) + (if has_easymo_ext(ps.last()) {
            seq![
                EmissionView {
                    event: "file-open"@,
                    target: TargetView::All,
                    payload: PayloadView::Text(ps.last()),
                },
            ]
        } else {
            Seq::empty()
        })
    }
}

/// Handles a file-open activation: each path with the application's
/// extension is broadcast as a `file-open` event carrying the path;
/// other paths are dropped.
pub fn handle_file_open(d: &mut Dispatcher, registry: &WindowRegistry, paths: &Vec<String>)
    ensures
        final(d)@ == old(d)@ + file_open_emissions(paths.deep_view()),
{
    let ghost pv = paths.deep_view();
    proof {
        assert(pv.take(0) =~= Seq::<Seq<char>>::empty());
        assert(old(d)@ + file_open_emissions(pv.take(0)) =~= old(d)@);
    }
    let mut i: usize = 0;
    while i < paths.len()
        invariant
            0 <= i <= paths@.len(),
            pv == paths.deep_view(),
            pv.len() == paths@.len(),
            d@ == old(d)@ + file_open_emissions(pv.take(i as int)),
        decreases paths@.len() - i,
    {
        proof {
            assert(pv[i as int] == paths@[i as int]@);
            assert(pv.take(i + 1 as int).drop_last() =~= pv.take(i as int));
            assert(pv.take(i + 1 as int).last() == pv[i as int]);
        }
        if is_easymo_path(paths[i].as_str()) {
            let ghost prev = d@;
            let _ = d.emit(
                registry,
                String::from_str("file-open"),
                EventPayload::Text(paths[i].clone()),
                EventTarget::All,
            );
            proof {
                let em = EmissionView {
                    event: "file-open"@,
                    target: TargetView::All,
                    payload: PayloadView::Text(pv[i as int]),
                };
                assert(d@ =~= old(d)@ + file_open_emissions(pv.take(i + 1 as int))) by {
                    assert(d@ == prev.push(em));
                    assert(file_open_emissions(pv.take(i + 1 as int)) =~= file_open_emissions(
                        pv.take(i as int),
                    ).push(em));
                }
            }
        }
        i += 1;
    }
    proof {
        assert(pv.take(pv.len() as int) =~= pv);
    }
}

} // verus!
