//! Status monitoring: classifies the serving engine's log lines into
//! discrete lifecycle phases.
//!
//! Each non-empty line yields exactly one event, decided by a fixed
//! priority order with first match winning: the listening marker (terminal),
//! a `key = value` metadata line from the loading phase, then the known
//! progress vocabulary, and a generic fallback carrying the line's first
//! characters.  Empty lines yield nothing.

use vstd::prelude::*;

verus! {

use vstd::string::*;
use crate::text::{
    contains_seq,
    contains_str,
    starts_with_str,
    trim_seq,
    trim_str,
    count_char,
    count_char_str,
    lemma_count_char,
    first_index_of,
    find_char,
    lemma_first_index_of,
};

/// One classified log line.
#[derive(Debug, PartialEq, Eq)]
pub enum PhaseEvent {
    /// The fixed listening marker appeared: the engine is ready to serve.
    /// Terminal; no further events need be consumed.
    Ready,
    /// A `key = value` metadata pair reported while the model loads.
    MetaStat { key: String, value: String },
    Downloading,
    LoadingBuffers,
    ProcessingLayers,
    ComputingCache,
    /// Any other non-empty line, truncated to its leading characters.
    Generic(String),
}

/// Mathematical view of a phase event.
pub ghost enum PhaseView {
    Ready,
    MetaStat { key: Seq<char>, value: Seq<char> },
    Downloading,
    LoadingBuffers,
    ProcessingLayers,
    ComputingCache,
    Generic(Seq<char>),
}

impl View for PhaseEvent {
    type V = PhaseView;

    open spec fn view(&self) -> PhaseView {
        match self {
            PhaseEvent::Ready => PhaseView::Ready,
            PhaseEvent::MetaStat { key, value } => PhaseView::MetaStat {
                key: key@,
                value: value@,
            },
            PhaseEvent::Downloading => PhaseView::Downloading,
            PhaseEvent::LoadingBuffers => PhaseView::LoadingBuffers,
            PhaseEvent::ProcessingLayers => PhaseView::ProcessingLayers,
            PhaseEvent::ComputingCache => PhaseView::ComputingCache,
            PhaseEvent::Generic(text) => PhaseView::Generic(text@),
        }
    }
}

/// The metadata `key = value` parts of a line, when the line carries the
/// loading-phase prefix and splitting the remainder on `=` yields exactly
/// two parts.
pub open spec fn meta_parts(line: Seq<char>) -> Option<(Seq<char>, Seq<char>)> {
    let p = "llm_load_print_meta:"@;
    if line.len() >= p.len() && line.subrange(0, p.len() as int) == p {
        let rem = line.subrange(p.len() as int, line.len() as int);
        if count_char(rem, '=') == 1 {
            let i = first_index_of(rem, '=');
            Some((trim_seq(rem.subrange(0, i)), trim_seq(rem.subrange(i + 1, rem.len() as int))))
        } else {
            None
        }
    } else {
        None
    }
}

/// The first `n` characters of `s` (all of `s` when it is shorter).
pub open spec fn first_chars(s: Seq<char>, n: int) -> Seq<char> {
    if s.len() <= n {
        s
    } else {
        s.subrange(0, n)
    }
}

/// The classification of one log line, in priority order with first match
/// winning; `None` exactly for an empty line.
pub open spec fn classify_spec(line: Seq<char>) -> Option<PhaseView> {
    if line.len() == 0 {
        None
    } else if contains_seq(line, "server is listening"@) {
        Some(PhaseView::Ready)
    } else if meta_parts(line) is Some {
        let (k, v) = meta_parts(line)->0;
        Some(PhaseView::MetaStat { key: k, value: v })
    } else if contains_seq(line, "downloading"@) {
        Some(PhaseView::Downloading)
    } else if contains_seq(line, "buffer size"@) {
        Some(PhaseView::LoadingBuffers)
    } else if contains_seq(line, "layers"@) {
        Some(PhaseView::ProcessingLayers)
    } else if contains_seq(line, "kv cache"@) {
        Some(PhaseView::ComputingCache)
    } else {
        Some(PhaseView::Generic(first_chars(line, 80)))
    }
}

/// View of an optional phase event.
pub open spec fn opt_phase_view(r: Option<PhaseEvent>) -> Option<PhaseView> {
    match r {
        Some(e) => Some(e@),
        None => None,
    }
}

/// Classifies one log line.
pub fn classify_line(line: &str) -> (r: Option<PhaseEvent>)
    ensures
        opt_phase_view(r) == classify_spec(line@),
        r is None <==> line@.len() == 0,
{
    let n = line.unicode_len();
    if n == 0 {
        return None;
    }
    if contains_str(line, "server is listening") {
        return Some(PhaseEvent::Ready);
    }
    let prefix = "llm_load_print_meta:";
    let pn = prefix.unicode_len();
    if starts_with_str(line, prefix) {
        let rem = line.substring_char(pn, n);
        if count_char_str(rem, '=') == 1 {
            proof {
                lemma_count_char(rem@, '=');
                lemma_first_index_of(rem@, '=');
            }
            let i = match find_char(rem, '=') {
                Some(i) => i,
                None => 0,
            };
            let rn = rem.unicode_len();
            let key = trim_str(rem.substring_char(0, i));
            let value = trim_str(rem.substring_char(i + 1, rn));
            return Some(
                PhaseEvent::MetaStat { key: String::from_str(key), value: String::from_str(value) },
            );
        }
    }
    if contains_str(line, "downloading") {
        return Some(PhaseEvent::Downloading);
    }
    if contains_str(line, "buffer size") {
        return Some(PhaseEvent::LoadingBuffers);
    }
    if contains_str(line, "layers") {
        return Some(PhaseEvent::ProcessingLayers);
    }
    if contains_str(line, "kv cache") {
        return Some(PhaseEvent::ComputingCache);
    }
    if n <= 80 {
        Some(PhaseEvent::Generic(String::from_str(line)))
    } else {
        Some(PhaseEvent::Generic(String::from_str(line.substring_char(0, 80))))
    }
}

/// The phase events of a backlog of lines, in order: empty lines yield
/// nothing, and the sequence stops with the first `Ready`.
pub open spec fn phase_events(lines: Seq<Seq<char>>) -> Seq<PhaseView>
    decreases lines.len(),
{
    if lines.len() == 0 {
        Seq::<PhaseView>::empty()
    } else {
        match classify_spec(lines.first()) {
            None => phase_events(lines.drop_first()),
            Some(ev) => seq![ev] + (if ev is Ready {
                Seq::<PhaseView>::empty()
            } else {
                phase_events(lines.drop_first())
            }),
        }
    }
}

/// Views of a list of phase events.
pub open spec fn phase_views(es: Seq<PhaseEvent>) -> Seq<PhaseView> {
    es.map_values(|e: PhaseEvent| e@)
}

/// Classifies a backlog of lines, stopping after the first `Ready`.
pub fn classify_backlog(lines: &Vec<String>) -> (r: Vec<PhaseEvent>)
    ensures
        phase_views(r@) == phase_events(crate::text::str_views(lines@)),
{
    let ghost ls = crate::text::str_views(lines@);
    let mut out: Vec<PhaseEvent> = Vec::new();
    let n = lines.len();
    proof {
        assert(ls.skip(0) =~= ls);
        assert(phase_views(out@) =~= Seq::<PhaseView>::empty());
        assert(phase_views(out@) + phase_events(ls) =~= phase_events(ls));
    }
    for k in 0..n
        invariant
            n == lines@.len(),
            ls == crate::text::str_views(lines@),
            ls.len() == n,
            phase_events(ls) == phase_views(out@) + phase_events(ls.skip(k as int)),
    {
        proof {
            assert(ls.skip(k as int).first() == ls[k as int]);
            assert(ls.skip(k as int).drop_first() =~= ls.skip(k + 1));
            assert(ls[k as int] == lines@[k as int]@);
        }
        match classify_line(lines[k].as_str()) {
            None => {},
            Some(ev) => {
                let ready = match &ev {
                    PhaseEvent::Ready => true,
                    _ => false,
                };
                out.push(ev);
                proof {
                    assert(phase_views(out@) =~= phase_views(out@.drop_last()).push(
                        out@.last()@,
                    ));
                }
                if ready {
                    proof {
                        assert(phase_events(ls) =~= phase_views(out@));
                    }
                    return out;
                }
            },
        }
        proof {
            assert(phase_events(ls) =~= phase_views(out@) + phase_events(ls.skip(k + 1)));
        }
    }
    proof {
        assert(ls.skip(n as int) =~= Seq::<Seq<char>>::empty());
        assert(phase_events(ls) =~= phase_views(out@));
    }
    out
}

/// The fixed listening marker itself classifies as `Ready`.
pub proof fn lemma_marker_is_ready()
    ensures
        classify_spec("server is listening"@) == Some(PhaseView::Ready),
{
    reveal_strlit("server is listening");
    let m = "server is listening"@;
    assert(m.subrange(0, m.len() as int) =~= m);
    assert(crate::text::matches_at(m, m, 0));
}

/// A log line equal to the listening marker terminates the phase-event
/// sequence with a `Ready` event: whatever lines follow it contribute
/// nothing.
pub proof fn lemma_ready_terminates(prefix: Seq<Seq<char>>, rest: Seq<Seq<char>>)
    requires
        forall|i: int|
            0 <= i < prefix.len() ==> classify_spec(#[trigger] prefix[i]) != Some(PhaseView::Ready),
    ensures
        phase_events(prefix + seq!["server is listening"@] + rest) == phase_events(prefix) + seq![
            PhaseView::Ready,
        ],
    decreases prefix.len(),
{
    lemma_marker_is_ready();
    let whole = prefix + seq!["server is listening"@] + rest;
    if prefix.len() == 0 {
        assert(whole.first() == "server is listening"@);
        assert(phase_events(whole) =~= seq![PhaseView::Ready]);
        assert(phase_events(prefix) =~= Seq::<PhaseView>::empty());
    } else {
        assert(whole.first() == prefix.first());
        assert(whole.drop_first() =~= prefix.drop_first() + seq!["server is listening"@] + rest);
        lemma_ready_terminates(prefix.drop_first(), rest);
        match classify_spec(prefix.first()) {
            None => {
                assert(phase_events(whole) == phase_events(whole.drop_first()));
                assert(phase_events(prefix) == phase_events(prefix.drop_first()));
            },
            Some(ev) => {
                assert(!(ev is Ready));
                assert(phase_events(whole) =~= seq![ev] + (phase_events(prefix.drop_first())
                    + seq![PhaseView::Ready]));
                assert(phase_events(prefix) =~= seq![ev] + phase_events(prefix.drop_first()));
                assert(phase_events(prefix) + seq![PhaseView::Ready] =~= seq![ev] + (phase_events(
                    prefix.drop_first(),
                ) + seq![PhaseView::Ready]));
            },
        }
    }
}

} // verus!
