//! A backend that keeps every message it shows, for inspection by its owner.
use vstd::prelude::*;
use crate::status::{ChatterLevel, Message, MessageKind, Render, StatusBackend};
use crate::template::fill;

verus! {

/// One message as a capturing backend kept it.
#[derive(Debug)]
pub struct Record {
    pub kind: MessageKind,
    pub text: String,
    pub has_error: bool,
}

pub open spec fn record_view(r: Record) -> (MessageKind, Seq<char>, bool) {
    (r.kind, r.text@, r.has_error)
}

/// Whether a backend at chatter level `level` shows a message of `kind`:
/// at `Minimal` notes are left out.
pub open spec fn shown(level: ChatterLevel, kind: MessageKind) -> bool {
    !(level == ChatterLevel::Minimal && kind == MessageKind::Note)
}

/// `text` is `template` filled from some `n_args` argument texts.
pub open spec fn filled_from(template: Seq<char>, n_args: nat, text: Seq<char>) -> bool {
    exists|texts: Seq<Seq<char>>| texts.len() == n_args && fill(template, texts) == Some(text)
}

/// A backend that records each message it shows, rendered, in order of arrival.
pub struct CaptureStatusBackend {
    level: ChatterLevel,
    records: Vec<Record>,
}

impl CaptureStatusBackend {
    pub closed spec fn level_view(&self) -> ChatterLevel {
        self.level
    }

    pub closed spec fn records_view(&self) -> Seq<(MessageKind, Seq<char>, bool)> {
        self.records@.map_values(|r: Record| record_view(r))
    }

    pub fn new(level: ChatterLevel) -> (r: CaptureStatusBackend)
        ensures
            r.level_view() == level,
            r.records_view() == Seq::<(MessageKind, Seq<char>, bool)>::empty(),
    {
        let r = CaptureStatusBackend { level, records: Vec::new() };
        assert(r.records_view() =~= Seq::<(MessageKind, Seq<char>, bool)>::empty());
        r
    }

    pub fn level(&self) -> (r: ChatterLevel)
        ensures
            r == self.level_view(),
    {
        self.level
    }

    pub fn records(&self) -> (r: &[Record])
        ensures
            r@.map_values(|x: Record| record_view(x)) == self.records_view(),
    {
        self.records.as_slice()
    }

    /// Whether this backend shows a message of `kind`.
    pub fn shows(&self, kind: MessageKind) -> (r: bool)
        ensures
            r == shown(self.level_view(), kind),
    {
        !(matches!(self.level, ChatterLevel::Minimal) && kind == MessageKind::Note)
    }
}

impl StatusBackend for CaptureStatusBackend {
    open spec fn received(
        &self,
        before: &Self,
        kind: MessageKind,
        template: Seq<char>,
        n_args: nat,
        has_error: bool,
    ) -> bool {
        &&& self.level_view() == before.level_view()
        &&& if shown(before.level_view(), kind) {
            exists|text: Seq<char>|
                filled_from(template, n_args, text) && self.records_view()
                    == before.records_view().push((kind, text, has_error))
        } else {
            self.records_view() == before.records_view()
        }
    }

    fn report<A: Render, E: Render>(
        &mut self,
        kind: MessageKind,
        msg: &Message<'_, A>,
        err: Option<&E>,
    ) {
        if self.shows(kind) {
            let text = msg.render();
            assert(filled_from(msg.template_view(), msg.args_view().len(), text@));
            let ghost before = self.records@;
            self.records.push(Record { kind, text, has_error: err.is_some() });
            assert(self.records@.map_values(|r: Record| record_view(r)) =~= before.map_values(
                |r: Record| record_view(r),
            ).push((kind, text@, err is Some)));
        }
    }
}

/// `r` is what a capturing backend keeps of the report `c`: its kind, its
/// template filled from its arguments, and whether an error came with it.
pub open spec fn keeps(r: (MessageKind, Seq<char>, bool), c: (MessageKind, Seq<char>, nat, bool)) -> bool {
    r.0 == c.0 && r.2 == c.3 && filled_from(c.1, c.2, r.1)
}

/// Reports that a capturing backend at `Normal` chatter receives one after
/// another leave exactly one record each, after those it held before, in the
/// order of the calls.
pub proof fn lemma_records_follow_calls(
    states: Seq<CaptureStatusBackend>,
    calls: Seq<(MessageKind, Seq<char>, nat, bool)>,
)
    requires
        states.len() == calls.len() + 1,
        states[0].level_view() == ChatterLevel::Normal,
        forall|i: int|
            1 <= i < states.len() ==> #[trigger] states[i].received(
                &states[i - 1],
                calls[i - 1].0,
                calls[i - 1].1,
                calls[i - 1].2,
                calls[i - 1].3,
            ),
    ensures
        states.last().level_view() == ChatterLevel::Normal,
        states.last().records_view().len() == states[0].records_view().len() + calls.len(),
        states.last().records_view().subrange(0, states[0].records_view().len() as int)
            == states[0].records_view(),
        forall|i: int|
            0 <= i < calls.len() ==> keeps(
                states.last().records_view()[states[0].records_view().len() + i],
                #[trigger] calls[i],
            ),
    decreases calls.len(),
{
    let base = states[0].records_view();
    if calls.len() == 0 {
        assert(base.subrange(0, base.len() as int) =~= base);
    } else {
        let n = calls.len() - 1;
        let sp = states.drop_last();
        let cp = calls.drop_last();
        assert forall|i: int| 1 <= i < sp.len() implies #[trigger] sp[i].received(
            &sp[i - 1],
            cp[i - 1].0,
            cp[i - 1].1,
            cp[i - 1].2,
            cp[i - 1].3,
        ) by {
            assert(states[i].received(
                &states[i - 1],
                calls[i - 1].0,
                calls[i - 1].1,
                calls[i - 1].2,
                calls[i - 1].3,
            ));
        }
        lemma_records_follow_calls(sp, cp);
        let prev = sp.last();
        let last = states.last();
        assert(last.received(&states[n], calls[n].0, calls[n].1, calls[n].2, calls[n].3));
        assert(prev == states[n]);
        let text = choose|text: Seq<char>|
            filled_from(calls[n].1, calls[n].2, text) && last.records_view()
                == prev.records_view().push((calls[n].0, text, calls[n].3));
        assert(keeps(last.records_view()[base.len() + n], calls[n]));
        assert(last.records_view().subrange(0, base.len() as int) =~= base) by {
            assert(prev.records_view().subrange(0, base.len() as int) =~= base);
        }
        assert forall|i: int| 0 <= i < calls.len() implies keeps(
            last.records_view()[base.len() + i],
            #[trigger] calls[i],
        ) by {
            if i < n {
                assert(cp[i] == calls[i]);
                assert(keeps(prev.records_view()[base.len() + i], cp[i]));
            }
        }
    }
}

/// A note sent to a capturing backend at `Minimal` chatter is neither
/// rendered nor kept: the backend is left as it was.
pub proof fn lemma_quiet_skips_notes(
    after: CaptureStatusBackend,
    before: CaptureStatusBackend,
    template: Seq<char>,
    n_args: nat,
    has_error: bool,
)
    requires
        before.level_view() == ChatterLevel::Minimal,
        after.received(&before, MessageKind::Note, template, n_args, has_error),
    ensures
        after.records_view() == before.records_view(),
        after.level_view() == ChatterLevel::Minimal,
{
}

} // verus!
