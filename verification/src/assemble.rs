//! Document assembler: folds classified lines, in file order, into a
//! sequence of documents, keeping at most one pending document at a time.

use vstd::prelude::*;
use crate::classify::{spec_classify, parse_line, ParseError};
use crate::models::{Document, DocModel, Line, LineType};

verus! {

/// An advisory diagnostic raised while assembling. Diagnostics never alter
/// the produced documents; each records the 1-based position of the line
/// that raised it.
#[derive(Debug, Clone, Copy, PartialEq, Eq, Structural)]
pub enum Diagnostic {
    /// An `Open` arrived while a document was still pending; the pending one
    /// was flushed without a close.
    UnclosedDocument { position: usize },
    /// A `Close` arrived with no pending document and was dropped.
    CloseWithoutOpen { position: usize },
    /// A `Freeze` arrived with no pending document and was dropped.
    FreezeWithoutOpen { position: usize },
}

/// The assembler's state: the single pending document, the documents emitted
/// so far, and the diagnostics raised so far.
#[verifier::ext_equal]
pub struct AsmState {
    pub pending: Option<DocModel>,
    pub emitted: Seq<DocModel>,
    pub diags: Seq<Diagnostic>,
}

pub open spec fn init_state() -> AsmState {
    AsmState { pending: None, emitted: Seq::empty(), diags: Seq::empty() }
}

pub open spec fn fresh_doc(ev: Line) -> DocModel {
    DocModel { open: ev, close: None, freezes: Seq::empty() }
}

/// One assembler transition on a classified event.
pub open spec fn step(st: AsmState, ev: Line) -> AsmState {
    match ev.line_type {
        LineType::Open => match st.pending {
            Some(d) => AsmState {
                pending: Some(fresh_doc(ev)),
                emitted: st.emitted.push(d),
                diags: st.diags.push(Diagnostic::UnclosedDocument { position: ev.index }),
            },
            None => AsmState { pending: Some(fresh_doc(ev)), emitted: st.emitted, diags: st.diags },
        },
        LineType::Close(_) => match st.pending {
            Some(d) => AsmState {
                pending: None,
                emitted: st.emitted.push(
                    DocModel { open: d.open, close: Some(ev), freezes: d.freezes },
                ),
                diags: st.diags,
            },
            None => AsmState {
                pending: None,
                emitted: st.emitted,
                diags: st.diags.push(Diagnostic::CloseWithoutOpen { position: ev.index }),
            },
        },
        LineType::Freeze => match st.pending {
            Some(d) => AsmState {
                pending: Some(DocModel { open: d.open, close: d.close, freezes: d.freezes.push(ev) }),
                emitted: st.emitted,
                diags: st.diags,
            },
            None => AsmState {
                pending: st.pending,
                emitted: st.emitted,
                diags: st.diags.push(Diagnostic::FreezeWithoutOpen { position: ev.index }),
            },
        },
    }
}

/// The assembler folded over a sequence of events.
pub open spec fn run_events(st: AsmState, evs: Seq<Line>) -> AsmState
    decreases evs.len(),
{
    if evs.len() == 0 {
        st
    } else {
        run_events(step(st, evs[0]), evs.drop_first())
    }
}

/// The whole parse from state `st` on, where `lines[0]` sits at 1-based
/// position `base`: classify each line, skip noise, fold events with [`step`],
/// and abort on the first classification error.
pub open spec fn spec_parse_from(st: AsmState, lines: Seq<Seq<char>>, base: usize) -> Result<
    AsmState,
    ParseError,
>
    decreases lines.len(),
{
    if lines.len() == 0 {
        Ok(st)
    } else {
        match spec_classify(base, lines[0]) {
            Err(e) => Err(e),
            Ok(None) => spec_parse_from(st, lines.drop_first(), (base + 1) as usize),
            Ok(Some(ev)) => spec_parse_from(step(st, ev), lines.drop_first(), (base + 1) as usize),
        }
    }
}

/// The parse of a whole file, lines numbered from 1. The final pending
/// document, if any, is deliberately not part of `emitted`.
pub open spec fn spec_parse(lines: Seq<Seq<char>>) -> Result<AsmState, ParseError> {
    spec_parse_from(init_state(), lines, 1)
}

/// What [`parse_file`] returns on success: the reconstructed documents and
/// the advisory diagnostics, both in file order.
pub struct Parsed {
    pub documents: Vec<Document>,
    pub diagnostics: Vec<Diagnostic>,
}

pub open spec fn doc_models(docs: Seq<Document>) -> Seq<DocModel> {
    docs.map_values(|d: Document| d@)
}

pub open spec fn all_wf(docs: Seq<DocModel>) -> bool {
    forall|i: int| 0 <= i < docs.len() ==> (#[trigger] docs[i]).wf()
}

/// Reconstructs the documents of a log, given its lines in file order.
///
/// Every emitted document carries the `Open` event that created it; a
/// document is emitted with a close exactly when a `Close` event ended it,
/// and without one when a later `Open` flushed it. A document still pending
/// at the end of input is dropped. Fails exactly when some line matches an
/// event pattern but its timestamp is no real calendar instant.
pub fn parse_file(lines: &Vec<String>) -> (r: Result<Parsed, ParseError>)
    ensures
        match r {
            Ok(p) => {
                &&& spec_parse(lines.deep_view()) matches Ok(st) && doc_models(p.documents@)
                    == st.emitted && p.diagnostics@ == st.diags
                &&& all_wf(doc_models(p.documents@))
            },
            Err(e) => spec_parse(lines.deep_view()) == Err::<AsmState, ParseError>(e),
        },
{
    let ghost all: Seq<Seq<char>> = lines.deep_view();
    let mut documents: Vec<Document> = Vec::new();
    let mut diagnostics: Vec<Diagnostic> = Vec::new();
    let mut pending: Option<Document> = None;
    let mut i: usize = 0;
    proof {
        assert(cur_state(pending, documents@, diagnostics@) =~~= init_state());
        assert(all.skip(0) =~= all);
    }
    while i < lines.len()
        invariant
            i <= lines.len(),
            all == lines.deep_view(),
            all.len() == lines.len(),
            spec_parse(all) == spec_parse_from(
                cur_state(pending, documents@, diagnostics@),
                all.skip(i as int),
                (i + 1) as usize,
            ),
            match pending {
                Some(d) => d@.wf() && d.close is None,
                None => true,
            },
            all_wf(doc_models(documents@)),
        decreases lines.len() - i,
    {
        proof {
            assert(all[i as int] == lines[i as int]@);
            assert(all.skip(i as int)[0] == all[i as int]);
            assert(all.skip(i as int).drop_first() =~= all.skip(i as int + 1));
        }
        let classified = parse_line(i + 1, lines[i].as_str());
        let ghost pre: AsmState = cur_state(pending, documents@, diagnostics@);
        let ev = match classified {
            Err(e) => {
                return Err(e);
            },
            Ok(None) => {
                i += 1;
                continue;
            },
            Ok(Some(ev)) => ev,
        };
        let prev = pending;
        pending = None;
        match ev.line_type {
            LineType::Open => {
                match prev {
                    Some(d) => {
                        diagnostics.push(Diagnostic::UnclosedDocument { position: ev.index });
                        documents.push(d);
                    },
                    None => {},
                }
                pending = Some(Document { open: ev, close: None, freeze: None });
            },
            LineType::Close(_) => {
                match prev {
                    Some(d) => {
                        documents.push(Document { open: d.open, close: Some(ev), freeze: d.freeze });
                    },
                    None => {
                        diagnostics.push(Diagnostic::CloseWithoutOpen { position: ev.index });
                    },
                }
            },
            LineType::Freeze => {
                match prev {
                    Some(d) => {
                        let mut fl = match d.freeze {
                            Some(v) => v,
                            None => Vec::new(),
                        };
                        fl.push(ev);
                        pending = Some(Document { open: d.open, close: d.close, freeze: Some(fl) });
                    },
                    None => {
                        diagnostics.push(Diagnostic::FreezeWithoutOpen { position: ev.index });
                    },
                }
            },
        }
        proof {
            assert(cur_state(pending, documents@, diagnostics@) =~~= step(pre, ev));
        }
        i += 1;
    }
    proof {
        assert(all.skip(i as int) =~= Seq::<Seq<char>>::empty());
    }
    Ok(Parsed { documents, diagnostics })
}

// ---------------------------------------------------------------------------
// Laws of the assembler
// ---------------------------------------------------------------------------

proof fn lemma_noise_then_event(st: AsmState, lines: Seq<Seq<char>>, base: usize, ev: Line)
    requires
        lines.len() >= 1,
        base + lines.len() - 1 <= usize::MAX,
        forall|k: int|
            0 <= k < lines.len() - 1 ==> spec_classify((base + k) as usize, #[trigger] lines[k])
                == Ok::<Option<Line>, ParseError>(None),
        spec_classify((base + lines.len() - 1) as usize, lines.last()) == Ok::<
            Option<Line>,
            ParseError,
        >(Some(ev)),
    ensures
        spec_parse_from(st, lines, base) == Ok::<AsmState, ParseError>(step(st, ev)),
    decreases lines.len(),
{
    if lines.len() == 1 {
        assert(lines[0] == lines.last());
        assert(spec_classify(base, lines[0]) == Ok::<Option<Line>, ParseError>(Some(ev)));
        assert(lines.drop_first() =~= Seq::<Seq<char>>::empty());
        assert(spec_parse_from(step(st, ev), lines.drop_first(), (base + 1) as usize) == Ok::<
            AsmState,
            ParseError,
        >(step(st, ev)));
    } else {
        assert(spec_classify(base, lines[0]) == Ok::<Option<Line>, ParseError>(None));
        let rest = lines.drop_first();
        assert(rest.last() == lines.last());
        assert(forall|k: int|
            0 <= k < rest.len() - 1 ==> #[trigger] rest[k] == lines[k + 1]);
        lemma_noise_then_event(st, rest, (base + 1) as usize, ev);
    }
}

/// The document that a round trip emits: opened by `e1`, closed by `e2`,
/// with no freezes.
pub open spec fn closed_doc(e1: Line, e2: Line) -> DocModel {
    DocModel { open: e1, close: Some(e2), freezes: Seq::empty() }
}

/// The document that a flush emits: opened by `e1`, never closed, with no
/// freezes.
pub open spec fn flushed_doc(e1: Line) -> DocModel {
    DocModel { open: e1, close: None, freezes: Seq::empty() }
}

/// Law (round trip): a line sequence whose first line classifies as `Open`,
/// whose last classifies as `Close`, and whose lines in between are all
/// noise, parses to exactly one document — closed, with printing time equal
/// to the close instant minus the open instant, and with no freezes — and
/// raises no diagnostic.
pub proof fn lemma_round_trip(lines: Seq<Seq<char>>, e1: Line, e2: Line, success: bool)
    requires
        lines.len() >= 2,
        lines.len() <= usize::MAX,
        spec_classify(1, lines[0]) == Ok::<Option<Line>, ParseError>(Some(e1)),
        e1.line_type == LineType::Open,
        forall|k: int|
            1 <= k < lines.len() - 1 ==> spec_classify((k + 1) as usize, #[trigger] lines[k])
                == Ok::<Option<Line>, ParseError>(None),
        spec_classify(lines.len() as usize, lines.last()) == Ok::<Option<Line>, ParseError>(
            Some(e2),
        ),
        e2.line_type == LineType::Close(success),
    ensures
        (spec_parse(lines) matches Ok(st) && st.pending is None && st.emitted == seq![
            closed_doc(e1, e2),
        ] && st.diags == Seq::<Diagnostic>::empty()),
        closed_doc(e1, e2).pt_defined(),
        closed_doc(e1, e2).pt_ms() == e2.dt.epoch_ms() - e1.dt.epoch_ms(),
{
    let st1 = step(init_state(), e1);
    let rest = lines.drop_first();
    assert(rest.last() == lines.last());
    assert(forall|k: int| 0 <= k < rest.len() - 1 ==> #[trigger] rest[k] == lines[k + 1]);
    lemma_noise_then_event(st1, rest, 2, e2);
    let fin = step(st1, e2);
    assert(fin.emitted =~= seq![closed_doc(e1, e2)]);
    assert(fin.diags =~= Seq::<Diagnostic>::empty());
    assert(spec_parse(lines) == Ok::<AsmState, ParseError>(fin));
}

/// Law (double open is diagnosed, not corrupted): `Open, Open, Close` yields
/// two documents — the first flushed without a close, and so without a
/// printing time, the second closed by the final event — plus one
/// unclosed-document diagnostic.
pub proof fn lemma_open_open_close(e1: Line, e2: Line, e3: Line, success: bool)
    requires
        e1.line_type == LineType::Open,
        e2.line_type == LineType::Open,
        e3.line_type == LineType::Close(success),
    ensures
        ({
            let fin = run_events(init_state(), seq![e1, e2, e3]);
            &&& fin.pending is None
            &&& fin.emitted == seq![flushed_doc(e1), closed_doc(e2, e3)]
            &&& fin.diags == seq![(Diagnostic::UnclosedDocument { position: e2.index })]
        }),
        !flushed_doc(e1).pt_defined(),
{
    let evs = seq![e1, e2, e3];
    assert(evs.drop_first() =~= seq![e2, e3]);
    assert(seq![e2, e3].drop_first() =~= seq![e3]);
    assert(seq![e3].drop_first() =~= Seq::<Line>::empty());
    let st1 = step(init_state(), e1);
    let st2 = step(st1, e2);
    let st3 = step(st2, e3);
    assert(run_events(init_state(), evs) == run_events(st1, seq![e2, e3]));
    assert(run_events(st1, seq![e2, e3]) == run_events(st2, seq![e3]));
    assert(run_events(st2, seq![e3]) == run_events(st3, Seq::<Line>::empty()));
    assert(run_events(st3, Seq::<Line>::empty()) == st3);
    assert(st3.emitted =~= seq![flushed_doc(e1), closed_doc(e2, e3)]);
    assert(st3.diags =~= seq![(Diagnostic::UnclosedDocument { position: e2.index })]);
}

/// Law (events with no prior open are dropped, with a diagnostic): a lone
/// `Close` yields no document and one diagnostic, and a lone `Freeze`
/// likewise.
pub proof fn lemma_unmatched_event_dropped(ev: Line)
    ensures
        ({
            let fin = run_events(init_state(), seq![ev]);
            &&& ev.line_type matches LineType::Close(b) ==> fin.pending is None && fin.emitted
                == Seq::<DocModel>::empty() && fin.diags == seq![
                (Diagnostic::CloseWithoutOpen { position: ev.index }),
            ]
            &&& ev.line_type == LineType::Freeze ==> fin.pending is None && fin.emitted == Seq::<
                DocModel,
            >::empty() && fin.diags == seq![(Diagnostic::FreezeWithoutOpen { position: ev.index })]
        }),
{
    let evs = seq![ev];
    assert(evs.drop_first() =~= Seq::<Line>::empty());
    let st1 = step(init_state(), ev);
    assert(run_events(init_state(), evs) == run_events(st1, Seq::<Line>::empty()));
    assert(run_events(st1, Seq::<Line>::empty()) == st1);
    let fin = run_events(init_state(), evs);
    if ev.line_type matches LineType::Close(b) {
        assert(fin.emitted =~= Seq::<DocModel>::empty());
        assert(fin.diags =~= seq![(Diagnostic::CloseWithoutOpen { position: ev.index })]);
    }
    if ev.line_type == LineType::Freeze {
        assert(fin.emitted =~= Seq::<DocModel>::empty());
        assert(fin.diags =~= seq![(Diagnostic::FreezeWithoutOpen { position: ev.index })]);
    }
}

/// The assembler state that a partial executable parse denotes.
spec fn cur_state(
    pending: Option<Document>,
    docs: Seq<Document>,
    diags: Seq<Diagnostic>,
) -> AsmState {
    AsmState {
        pending: match pending {
            Some(d) => Some(d@),
            None => None,
        },
        emitted: doc_models(docs),
        diags: diags,
    }
}

} // verus!
