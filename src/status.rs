//! A framework for showing status messages to the user.
use vstd::prelude::*;
use vstd::std_specs::cmp::PartialOrdSpec;
use crate::template::{fill, format_template, lemma_fill_defined, template_ok, texts_of};

verus! {

/// How much a backend shows: `Minimal < Normal`.
#[derive(Clone, Copy, Eq, Debug, Ord)]
pub enum ChatterLevel {
    Minimal,
    Normal,
}

impl ChatterLevel {
    /// The position of the level in the order of verbosity.
    pub open spec fn spec_rank(self) -> nat {
        match self {
            ChatterLevel::Minimal => 0,
            ChatterLevel::Normal => 1,
        }
    }

    pub fn rank(&self) -> (r: usize)
        ensures
            r == self.spec_rank(),
    {
        match self {
            ChatterLevel::Minimal => 0,
            ChatterLevel::Normal => 1,
        }
    }
}

impl PartialEq for ChatterLevel {
    fn eq(&self, other: &ChatterLevel) -> (r: bool)
        ensures
            r == (self.spec_rank() == other.spec_rank()),
    {
        self.rank() == other.rank()
    }
}

impl vstd::std_specs::cmp::PartialEqSpecImpl for ChatterLevel {
    open spec fn obeys_eq_spec() -> bool {
        true
    }

    open spec fn eq_spec(&self, other: &ChatterLevel) -> bool {
        self.spec_rank() == other.spec_rank()
    }
}

pub open spec fn rank_order(a: nat, b: nat) -> std::cmp::Ordering {
    if a < b {
        std::cmp::Ordering::Less
    } else if a == b {
        std::cmp::Ordering::Equal
    } else {
        std::cmp::Ordering::Greater
    }
}

impl PartialOrd for ChatterLevel {
    fn partial_cmp(&self, other: &ChatterLevel) -> (r: Option<std::cmp::Ordering>)
        ensures
            r == Some(rank_order(self.spec_rank(), other.spec_rank())),
    {
        let a = self.rank();
        let b = other.rank();
        if a < b {
            Some(std::cmp::Ordering::Less)
        } else if a == b {
            Some(std::cmp::Ordering::Equal)
        } else {
            Some(std::cmp::Ordering::Greater)
        }
    }
}

impl vstd::std_specs::cmp::PartialOrdSpecImpl for ChatterLevel {
    open spec fn obeys_partial_cmp_spec() -> bool {
        true
    }

    open spec fn partial_cmp_spec(&self, other: &ChatterLevel) -> Option<std::cmp::Ordering> {
        Some(rank_order(self.spec_rank(), other.spec_rank()))
    }
}

/// The kind of a reported message.
#[derive(Clone, Copy, PartialEq, Eq, Debug, Structural)]
pub enum MessageKind {
    Note,
    Warning,
    Error,
}

/// A value that can be shown as text: a message argument or an attached error.
///
/// A backend calls `render` only when it shows the text, so an argument that
/// is never shown is never rendered.
pub trait Render {
    fn render(&self) -> String;
}

impl Render for String {
    fn render(&self) -> (r: String) {
        self.clone()
    }
}

impl Render for u64 {
    fn render(&self) -> (r: String) {
        self.to_string()
    }
}

impl Render for i64 {
    fn render(&self) -> (r: String) {
        self.to_string()
    }
}

impl Render for usize {
    fn render(&self) -> (r: String) {
        self.to_string()
    }
}

/// A message as handed to a backend: a template and the arguments that fill
/// it, neither of them rendered yet.
pub struct Message<'a, A> {
    template: &'a str,
    args: &'a [A],
}

impl<'a, A: Render> Message<'a, A> {
    pub closed spec fn template_view(&self) -> Seq<char> {
        self.template@
    }

    pub closed spec fn args_view(&self) -> Seq<A> {
        self.args@
    }

    /// The template can be filled from the arguments.
    pub open spec fn wf(&self) -> bool {
        template_ok(self.template_view(), self.args_view().len())
    }

    /// The message for `template` and `args`, or `None` where the template is
    /// malformed or names an argument that is not there.
    pub fn new(template: &'a str, args: &'a [A]) -> (r: Option<Message<'a, A>>)
        ensures
            r is Some <==> template_ok(template@, args@.len()),
            r matches Some(m) ==> m.template_view() == template@ && m.args_view() == args@,
    {
        let mut blanks: Vec<String> = Vec::new();
        let mut k: usize = 0;
        while k < args.len()
            invariant
                k <= args@.len(),
                blanks@.len() == k,
            decreases args@.len() - k,
        {
            blanks.push(String::new());
            k = k + 1;
        }
        proof {
            lemma_fill_defined(template@, texts_of(blanks@));
        }
        if format_template(template, blanks.as_slice()).is_some() {
            Some(Message { template, args })
        } else {
            None
        }
    }

    /// A message whose template is known to fit its arguments.
    pub fn from_parts(template: &'a str, args: &'a [A]) -> (m: Message<'a, A>)
        requires
            template_ok(template@, args@.len()),
        ensures
            m.template_view() == template@,
            m.args_view() == args@,
            m.wf(),
    {
        Message { template, args }
    }

    pub fn template(&self) -> (r: &'a str)
        ensures
            r@ == self.template_view(),
    {
        self.template
    }

    pub fn args(&self) -> (r: &'a [A])
        ensures
            r@ == self.args_view(),
    {
        self.args
    }

    /// Renders every argument and fills the template with their texts.
    pub fn render(&self) -> (r: String)
        requires
            self.wf(),
        ensures
            exists|texts: Seq<Seq<char>>|
                texts.len() == self.args_view().len() && fill(self.template_view(), texts)
                    == Some(r@),
    {
        let mut texts: Vec<String> = Vec::new();
        let mut k: usize = 0;
        while k < self.args.len()
            invariant
                k <= self.args@.len(),
                texts@.len() == k,
            decreases self.args@.len() - k,
        {
            texts.push(self.args[k].render());
            k = k + 1;
        }
        proof {
            lemma_fill_defined(self.template@, texts_of(texts@));
        }
        let filled = format_template(self.template, texts.as_slice());
        match filled {
            Some(s) => s,
            None => String::new(),
        }
    }
}

/// Something that receives reported messages and decides how, and whether,
/// to show them.
pub trait StatusBackend: Sized {
    /// Holds when `self` is what `before` becomes on receiving one report of
    /// `kind` with `template`, `n_args` arguments, and an error or none.
    spec fn received(
        &self,
        before: &Self,
        kind: MessageKind,
        template: Seq<char>,
        n_args: nat,
        has_error: bool,
    ) -> bool;

    /// Receives one message. Reporting never fails: a backend absorbs any
    /// failure of its own output.
    fn report<A: Render, E: Render>(
        &mut self,
        kind: MessageKind,
        msg: &Message<'_, A>,
        err: Option<&E>,
    )
        requires
            msg.wf(),
        ensures
            final(self).received(
                old(self),
                kind,
                msg.template_view(),
                msg.args_view().len(),
                err is Some,
            ),
    ;
}

/// Sends one message of `kind` to `dest`; the template is filled only if the
/// backend shows the message.
pub fn tt_report<B: StatusBackend, A: Render, E: Render>(
    dest: &mut B,
    kind: MessageKind,
    template: &str,
    args: &[A],
    err: Option<&E>,
)
    requires
        template_ok(template@, args@.len()),
    ensures
        final(dest).received(old(dest), kind, template@, args@.len(), err is Some),
{
    let msg = Message::from_parts(template, args);
    dest.report(kind, &msg, err);
}

/// Reports an informational message.
pub fn tt_note<B: StatusBackend, A: Render, E: Render>(
    dest: &mut B,
    template: &str,
    args: &[A],
    err: Option<&E>,
)
    requires
        template_ok(template@, args@.len()),
    ensures
        final(dest).received(old(dest), MessageKind::Note, template@, args@.len(), err is Some),
{
    tt_report(dest, MessageKind::Note, template, args, err);
}

/// Reports a warning.
pub fn tt_warning<B: StatusBackend, A: Render, E: Render>(
    dest: &mut B,
    template: &str,
    args: &[A],
    err: Option<&E>,
)
    requires
        template_ok(template@, args@.len()),
    ensures
        final(dest).received(old(dest), MessageKind::Warning, template@, args@.len(), err is Some),
{
    tt_report(dest, MessageKind::Warning, template, args, err);
}

/// Reports an error.
pub fn tt_error<B: StatusBackend, A: Render, E: Render>(
    dest: &mut B,
    template: &str,
    args: &[A],
    err: Option<&E>,
)
    requires
        template_ok(template@, args@.len()),
    ensures
        final(dest).received(old(dest), MessageKind::Error, template@, args@.len(), err is Some),
{
    tt_report(dest, MessageKind::Error, template, args, err);
}

/// A backend that discards every message.
pub struct NoopStatusBackend {}

impl NoopStatusBackend {
    pub fn new() -> (r: NoopStatusBackend)
        ensures
            r == (NoopStatusBackend {}),
    {
        NoopStatusBackend {}
    }
}

impl StatusBackend for NoopStatusBackend {
    open spec fn received(
        &self,
        before: &Self,
        kind: MessageKind,
        template: Seq<char>,
        n_args: nat,
        has_error: bool,
    ) -> bool {
        *self == *before
    }

    fn report<A: Render, E: Render>(
        &mut self,
        kind: MessageKind,
        msg: &Message<'_, A>,
        err: Option<&E>,
    ) {
    }
}

/// There are exactly two chatter levels, `Minimal` is below `Normal`, and any
/// two levels compare one way only: the order is total.
pub proof fn lemma_chatter_order(a: ChatterLevel, b: ChatterLevel)
    ensures
        a == ChatterLevel::Minimal || a == ChatterLevel::Normal,
        ChatterLevel::Minimal.partial_cmp_spec(&ChatterLevel::Normal) == Some(
            std::cmp::Ordering::Less,
        ),
        ChatterLevel::Normal.partial_cmp_spec(&ChatterLevel::Minimal) == Some(
            std::cmp::Ordering::Greater,
        ),
        a.partial_cmp_spec(&b) is Some,
        a.partial_cmp_spec(&b) == Some(std::cmp::Ordering::Equal) <==> a == b,
        a.partial_cmp_spec(&b) == Some(std::cmp::Ordering::Less) <==> b.partial_cmp_spec(&a)
            == Some(std::cmp::Ordering::Greater),
{
}

/// Every message kind is one of the three, equal to itself, and the three
/// are distinct.
pub proof fn lemma_message_kinds(k: MessageKind)
    ensures
        k == MessageKind::Note || k == MessageKind::Warning || k == MessageKind::Error,
        k == k,
        MessageKind::Note != MessageKind::Warning,
        MessageKind::Note != MessageKind::Error,
        MessageKind::Warning != MessageKind::Error,
{
}

/// Whatever is reported to a no-op backend, it stays as it was.
pub proof fn lemma_noop_unchanged(
    after: NoopStatusBackend,
    before: NoopStatusBackend,
    kind: MessageKind,
    template: Seq<char>,
    n_args: nat,
    has_error: bool,
)
    requires
        after.received(&before, kind, template, n_args, has_error),
    ensures
        after == before,
{
}

} // verus!
