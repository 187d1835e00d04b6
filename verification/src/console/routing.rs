//! Which console output goes to, and what is written there.

use vstd::prelude::*;
use crate::console::data::{
    bytes_of, chomped, data_bytes, data_of, mode_result, parse_mode, strip_line_ending, Framing,
};
use crate::error::{outcome, viewed, Error, ErrorView};
use crate::value::Value;

verus! {

broadcast use vstd::string::group_string_axioms;

/// The interface of a console that a program derives its own from. It has no
/// stream to write to, and safe answers to everything else.
pub struct Console;

/// The dimensions of a console that has any; this base has none to report.
pub struct Geometry;

/// The line ending of a console that has no opinion of its own.
pub fn default_line_ending() -> (s: &'static str)
    ensures
        s@ == "\n"@,
{
    "\n"
}

impl Console {
    /// A console with no stream takes nothing.
    pub fn write(&self) -> (r: Result<(), Error>)
        ensures
            outcome(r) == Err::<(), ErrorView>(ErrorView::NotSupported),
    {
        Err(Error::NotSupported)
    }

    /// A console with no stream has nothing to flush.
    pub fn flush(&self) -> (r: Result<(), Error>)
        ensures
            outcome(r) == Err::<(), ErrorView>(ErrorView::NotSupported),
    {
        Err(Error::NotSupported)
    }

    pub fn line_ending(&self) -> (s: &'static str)
        ensures
            s@ == "\n"@,
    {
        default_line_ending()
    }

    pub fn can_style(&self) -> (r: bool)
        ensures
            !r,
    {
        false
    }

    pub fn is_tty(&self) -> (r: bool)
        ensures
            !r,
    {
        false
    }

    /// A mere stream has no layout.
    pub fn geometry(&self) -> (r: Option<Geometry>)
        ensures
            r is None,
    {
        None
    }
}

impl Geometry {
    pub fn rows(&self) -> (r: Result<usize, Error>)
        ensures
            outcome(r) == Err::<usize, ErrorView>(ErrorView::NotSupported),
    {
        Err(Error::NotSupported)
    }

    pub fn cols(&self) -> (r: Result<usize, Error>)
        ensures
            outcome(r) == Err::<usize, ErrorView>(ErrorView::NotSupported),
    {
        Err(Error::NotSupported)
    }
}

/// A console, known by its number.
#[derive(Clone, Copy, Debug, PartialEq, Eq, Structural)]
pub struct ConsoleId(pub u64);

/// What every strand keeps for itself about the console it writes to.
#[derive(Clone, Copy, Debug, PartialEq, Eq, Structural)]
pub struct Local {
    capturing: bool,
    capture_can_style: bool,
}

impl Local {
    /// Whether a console is being written to right now.
    pub closed spec fn is_capturing(self) -> bool {
        self.capturing
    }

    /// Whether the installed capture takes styling.
    pub closed spec fn capture_styles(self) -> bool {
        self.capture_can_style
    }

    /// A new strand writes to no console.
    pub fn init() -> (local: Local)
        ensures
            !local.is_capturing(),
            !local.capture_styles(),
    {
        Local { capturing: false, capture_can_style: false }
    }

    /// A strand spawned from another one starts out like it.
    pub fn inherit(&self) -> (local: Local)
        ensures
            local == *self,
    {
        *self
    }

    pub fn capturing(&self) -> (r: bool)
        ensures
            r == self.is_capturing(),
    {
        self.capturing
    }

    /// Sets the mark and hands out what it was before.
    pub fn set_capturing(&mut self, v: bool) -> (previous: bool)
        ensures
            previous == old(self).is_capturing(),
            final(self).is_capturing() == v,
            final(self).capture_styles() == old(self).capture_styles(),
    {
        let previous = self.capturing;
        self.capturing = v;
        previous
    }

    pub fn capture_can_style(&self) -> (r: bool)
        ensures
            r == self.capture_styles(),
    {
        self.capture_can_style
    }

    /// Sets the mark and hands out what it was before.
    pub fn set_capture_can_style(&mut self, v: bool) -> (previous: bool)
        ensures
            previous == old(self).capture_styles(),
            final(self).capture_styles() == v,
            final(self).is_capturing() == old(self).is_capturing(),
    {
        let previous = self.capture_can_style;
        self.capture_can_style = v;
        previous
    }

    /// Two strands in the same state are the same.
    pub proof fn same(a: Local, b: Local)
        requires
            a.is_capturing() == b.is_capturing(),
            a.capture_styles() == b.capture_styles(),
        ensures
            a == b,
    {
    }
}

/// The console of the host, with what it reported when it was installed.
pub struct Host {
    pub console: Option<ConsoleId>,
    pub line_ending: Value,
    pub can_style: bool,
}

/// A strand's view of consoles: the capture around it, with what that
/// reported when it was installed, and the marks of its own.
pub struct Strand {
    pub capture: Option<ConsoleId>,
    pub capture_line_ending: Value,
    pub local: Local,
}

impl Host {
    /// A host that nothing was installed on.
    pub fn new() -> (host: Host)
        ensures
            host.console is None,
            host.line_ending is Nil,
            !host.can_style,
    {
        Host { console: None, line_ending: Value::Nil, can_style: false }
    }
}

/// Installs the console that output goes to when nothing is captured.
pub fn install_console(host: &mut Host, console: ConsoleId, can_style: bool, line_ending: &str)
    ensures
        final(host).console == Some(console),
        final(host).can_style == can_style,
        final(host).line_ending matches Value::Str(s) && s@ == line_ending@,
{
    host.console = Some(console);
    host.line_ending = Value::Str(line_ending.to_owned());
    host.can_style = can_style;
}

/// The outcome of looking for the host's console.
pub open spec fn host_result(host: Host) -> Result<ConsoleId, ErrorView> {
    match host.console {
        Some(console) => Ok(console),
        None => Err(ErrorView::State("no console installed"@)),
    }
}

impl Strand {
    /// A strand outside any capture.
    pub fn new() -> (strand: Strand)
        ensures
            strand.capture is None,
            strand.capture_line_ending is Nil,
            !strand.local.is_capturing(),
            !strand.local.capture_styles(),
    {
        Strand { capture: None, capture_line_ending: Value::Nil, local: Local::init() }
    }

    /// Whether output goes into the capture: not while a console is being
    /// written to, so that what the console itself prints reaches the host.
    pub open spec fn is_diverted(self) -> bool {
        self.capture is Some && !self.local.is_capturing()
    }

    /// Where output goes now.
    pub open spec fn target(self, host: Host) -> Result<ConsoleId, ErrorView> {
        if self.is_diverted() {
            Ok(self.capture->0)
        } else {
            host_result(host)
        }
    }

    /// The line ending of where output goes.
    pub open spec fn ending(self, host: Host) -> Value {
        if self.is_diverted() {
            self.capture_line_ending
        } else {
            host.line_ending
        }
    }

    /// Whether output goes into the capture.
    pub fn captured(&self) -> (r: bool)
        ensures
            r == self.is_diverted(),
    {
        self.capture.is_some() && !self.local.capturing()
    }
}

/// Whether a capture surrounds the strand, written to or not.
pub fn is_captured(strand: &Strand) -> (r: bool)
    ensures
        r == strand.capture is Some,
{
    strand.capture.is_some()
}

/// The host's console.
fn host_console(host: &Host) -> (r: Result<ConsoleId, Error>)
    ensures
        outcome(r) == host_result(*host),
{
    match host.console {
        Some(console) => Ok(console),
        None => Err(Error::State("no console installed".to_owned())),
    }
}

/// Where output goes now.
pub fn route(strand: &Strand, host: &Host) -> (r: Result<ConsoleId, Error>)
    ensures
        outcome(r) == strand.target(*host),
{
    if strand.captured() {
        if let Some(console) = strand.capture {
            return Ok(console);
        }
    }
    host_console(host)
}

/// The console of the capture around the strand, or else the host's.
pub fn ambient(strand: &Strand, host: &Host) -> (r: Result<ConsoleId, Error>)
    ensures
        outcome(r) == match strand.capture {
            Some(console) => Ok(console),
            None => host_result(*host),
        },
{
    match strand.capture {
        Some(console) => Ok(console),
        None => host_console(host),
    }
}

/// The console of the capture around the strand, or nothing for the host's.
pub fn terminal_output(strand: &Strand) -> (r: Option<ConsoleId>)
    ensures
        r == strand.capture,
{
    strand.capture
}

/// Whether styling should be written.
pub fn ansi_enabled(strand: &Strand, host: &Host) -> (r: bool)
    ensures
        r == if strand.is_diverted() {
            strand.local.capture_styles()
        } else {
            host.can_style
        },
{
    if strand.captured() {
        strand.local.capture_can_style()
    } else {
        host.can_style
    }
}

/// The line ending of where output goes, as bytes.
pub open spec fn ending_bytes(ending: Value) -> Result<Seq<u8>, ErrorView> {
    if ending is Nil {
        Err(ErrorView::State("no console installed"@))
    } else {
        data_of(ending)
    }
}

/// The line ending of where output goes, as bytes.
pub fn terminal_line_ending(strand: &Strand, host: &Host) -> (r: Result<Vec<u8>, Error>)
    ensures
        viewed(r) == ending_bytes(strand.ending(*host)),
{
    let ending = if strand.captured() {
        &strand.capture_line_ending
    } else {
        &host.line_ending
    };
    if let Value::Nil = ending {
        return Err(Error::State("no console installed".to_owned()));
    }
    data_bytes(ending)
}

/// A call of a console's `write`, or of its `flush`.
#[derive(Debug)]
pub enum Request {
    Write(Vec<u8>),
    WriteLine(Vec<u8>, Vec<u8>),
    Flush,
}

/// The mathematical content of a [`Request`].
#[verifier::ext_equal]
pub enum RequestView {
    Write(Seq<u8>),
    WriteLine(Seq<u8>, Seq<u8>),
    Flush,
}

impl View for Request {
    type V = RequestView;

    open spec fn view(&self) -> RequestView {
        match self {
            Request::Write(b) => RequestView::Write(b@),
            Request::WriteLine(b, e) => RequestView::WriteLine(b@, e@),
            Request::Flush => RequestView::Flush,
        }
    }
}

/// A request under way: to which console, and how the strand was marked
/// before.
#[derive(Debug)]
pub struct Dispatch {
    pub target: ConsoleId,
    pub request: Request,
    pub previous: bool,
}

/// Whether a request was sent: to `target`, with the strand marked while it
/// is under way.
pub open spec fn sent(
    before: Strand,
    after: Strand,
    target: Result<ConsoleId, ErrorView>,
    request: RequestView,
    r: Result<Dispatch, Error>,
) -> bool {
    match target {
        Err(e) => r is Err && r->Err_0@ == e && after == before,
        Ok(console) => {
            &&& r is Ok
            &&& r->Ok_0.target == console
            &&& r->Ok_0.request@ == request
            &&& r->Ok_0.previous == before.local.is_capturing()
            &&& after.local.is_capturing()
            &&& after.local.capture_styles() == before.local.capture_styles()
            &&& after.capture == before.capture
            &&& after.capture_line_ending == before.capture_line_ending
        },
    }
}

/// Sends a request to a console.
fn dispatch(strand: &mut Strand, target: Result<ConsoleId, Error>, request: Request) -> (r: Result<
    Dispatch,
    Error,
>)
    ensures
        sent(*old(strand), *final(strand), outcome(target), request@, r),
{
    match target {
        Ok(target) => {
            let previous = strand.local.set_capturing(true);
            Ok(Dispatch { target, request, previous })
        },
        Err(e) => Err(e),
    }
}

/// Ends a request: the strand is marked as it was before.
pub fn complete(strand: &mut Strand, previous: bool)
    ensures
        final(strand).local.is_capturing() == previous,
        final(strand).local.capture_styles() == old(strand).local.capture_styles(),
        final(strand).capture == old(strand).capture,
        final(strand).capture_line_ending == old(strand).capture_line_ending,
{
    let _ = strand.local.set_capturing(previous);
}

/// Writes bytes verbatim to where output goes.
pub fn write(strand: &mut Strand, host: &Host, bytes: Vec<u8>) -> (r: Result<Dispatch, Error>)
    ensures
        sent(
            *old(strand),
            *final(strand),
            old(strand).target(*host),
            RequestView::Write(bytes@),
            r,
        ),
{
    let target = route(strand, host);
    dispatch(strand, target, Request::Write(bytes))
}

/// Writes a line and its ending to where output goes, in one request, so that
/// nothing can come between them.
pub fn writeln(strand: &mut Strand, host: &Host, bytes: Vec<u8>) -> (r: Result<Dispatch, Error>)
    ensures
        match old(strand).target(*host) {
            Err(e) => r is Err && r->Err_0@ == e && *final(strand) == *old(strand),
            Ok(console) => match data_of(old(strand).ending(*host)) {
                Err(e) => r is Err && r->Err_0@ == e && *final(strand) == *old(strand),
                Ok(ending) => sent(
                    *old(strand),
                    *final(strand),
                    Ok(console),
                    RequestView::WriteLine(bytes@, ending),
                    r,
                ),
            },
        },
{
    let target = match route(strand, host) {
        Ok(target) => target,
        Err(e) => return Err(e),
    };
    let ending = if strand.captured() {
        &strand.capture_line_ending
    } else {
        &host.line_ending
    };
    let ending = match data_bytes(ending) {
        Ok(ending) => ending,
        Err(e) => return Err(e),
    };
    dispatch(strand, Ok(target), Request::WriteLine(bytes, ending))
}

/// Flushes where output goes.
pub fn flush(strand: &mut Strand, host: &Host) -> (r: Result<Dispatch, Error>)
    ensures
        sent(*old(strand), *final(strand), old(strand).target(*host), RequestView::Flush, r),
{
    let target = route(strand, host);
    dispatch(strand, target, Request::Flush)
}

/// Writes a line to a console picked earlier; none stands for the host's.
pub fn write_terminal_line(
    strand: &mut Strand,
    host: &Host,
    output: Option<ConsoleId>,
    line_ending: Vec<u8>,
    line: &str,
) -> (r: Result<Dispatch, Error>)
    ensures
        sent(
            *old(strand),
            *final(strand),
            match output {
                Some(console) => Ok(console),
                None => host_result(*host),
            },
            RequestView::WriteLine(vstd::utf8::encode_utf8(line@), line_ending@),
            r,
        ),
{
    let target = match output {
        Some(console) => Ok(console),
        None => host_console(host),
    };
    dispatch(strand, target, Request::WriteLine(bytes_of(line), line_ending))
}

/// What an installed capture replaced.
pub struct Saved {
    pub capture: Option<ConsoleId>,
    pub capture_line_ending: Value,
    pub can_style: bool,
}

/// Installs a console around the strand, with what it reported.
pub fn install_capture(strand: &mut Strand, console: ConsoleId, can_style: bool, line_ending: Value) -> (saved:
    Saved)
    ensures
        final(strand).capture == Some(console),
        final(strand).capture_line_ending == line_ending,
        final(strand).local.capture_styles() == can_style,
        final(strand).local.is_capturing() == old(strand).local.is_capturing(),
        saved.capture == old(strand).capture,
        saved.capture_line_ending == old(strand).capture_line_ending,
        saved.can_style == old(strand).local.capture_styles(),
{
    let capture = strand.capture;
    strand.capture = Some(console);
    let mut ending = line_ending;
    std::mem::swap(&mut ending, &mut strand.capture_line_ending);
    let previous = strand.local.set_capture_can_style(can_style);
    Saved { capture, capture_line_ending: ending, can_style: previous }
}

/// Takes an installed console away again: the strand is as it was before.
pub fn restore_capture(strand: &mut Strand, saved: Saved)
    ensures
        final(strand).capture == saved.capture,
        final(strand).capture_line_ending == saved.capture_line_ending,
        final(strand).local.capture_styles() == saved.can_style,
        final(strand).local.is_capturing() == old(strand).local.is_capturing(),
{
    strand.capture = saved.capture;
    strand.capture_line_ending = saved.capture_line_ending;
    let _ = strand.local.set_capture_can_style(saved.can_style);
}

/// Whether `saved` is what installing a capture in `before` hands out, with
/// `during` the strand inside it.
pub open spec fn captures(before: Strand, during: Strand, saved: Saved) -> bool {
    &&& saved.capture == before.capture
    &&& saved.capture_line_ending == before.capture_line_ending
    &&& saved.can_style == before.local.capture_styles()
    &&& during.local.is_capturing() == before.local.is_capturing()
}

/// Whether `after` is what restoring `saved` makes of `during`.
pub open spec fn restores(during: Strand, after: Strand, saved: Saved) -> bool {
    &&& after.capture == saved.capture
    &&& after.capture_line_ending == saved.capture_line_ending
    &&& after.local.capture_styles() == saved.can_style
    &&& after.local.is_capturing() == during.local.is_capturing()
}

/// A capture leaves no trace: restoring what it replaced gives the strand
/// back exactly as it was.
pub proof fn capture_is_undone(before: Strand, during: Strand, after: Strand, saved: Saved)
    requires
        captures(before, during, saved),
        restores(during, after, saved),
    ensures
        after == before,
{
    Local::same(before.local, after.local);
}

/// While a request is under way, output reaches the host, whatever capture
/// surrounds the strand; so a console may print without calling itself.
pub proof fn dispatch_reaches_host(
    before: Strand,
    during: Strand,
    host: Host,
    target: Result<ConsoleId, ErrorView>,
    request: RequestView,
    r: Result<Dispatch, Error>,
)
    requires
        sent(before, during, target, request, r),
        r is Ok,
    ensures
        during.target(host) == host_result(host),
        during.ending(host) == host.line_ending,
{
}

/// Reads a console's report that it takes styling.
pub fn can_style(value: &Value) -> (r: Result<bool, Error>)
    ensures
        outcome(r) == match *value {
            Value::Bool(b) => Ok(b),
            _ => Err(ErrorView::Type("can_style: expected `Bool`"@)),
        },
{
    match value {
        Value::Bool(b) => Ok(*b),
        _ => Err(Error::Type("can_style: expected `Bool`".to_owned())),
    }
}

/// Reads a console's report that it is a terminal.
pub fn is_tty(value: &Value) -> (r: Result<bool, Error>)
    ensures
        outcome(r) == match *value {
            Value::Bool(b) => Ok(b),
            _ => Err(ErrorView::Type("is_tty: expected `Bool`"@)),
        },
{
    match value {
        Value::Bool(b) => Ok(*b),
        _ => Err(Error::Type("is_tty: expected `Bool`".to_owned())),
    }
}

/// Checks a console's report of its line ending.
pub fn line_ending(value: &Value) -> (r: Result<(), Error>)
    ensures
        outcome(r) == match *value {
            Value::Str(_) => Ok(()),
            Value::Bin(_) => Ok(()),
            _ => Err(ErrorView::Type("line_ending: expected `Str` or `Bin`"@)),
        },
{
    match value {
        Value::Str(_) => Ok(()),
        Value::Bin(_) => Ok(()),
        _ => Err(Error::Type("line_ending: expected `Str` or `Bin`".to_owned())),
    }
}

/// What to capture into: a console as it is, or a sink behind an adapter.
#[derive(Clone, Copy, Debug, PartialEq, Eq, Structural)]
pub enum CaptureInto {
    Console,
    Sink(Framing),
}

/// What to capture into. Only a plain sink is framed here.
pub fn capture_into(is_console: bool, mode: &Option<Value>) -> (r: Result<CaptureInto, Error>)
    ensures
        outcome(r) == if is_console {
            if mode is Some {
                Err(ErrorView::Value("mode: applies only when capturing into a plain sink"@))
            } else {
                Ok(CaptureInto::Console)
            }
        } else {
            match mode_result(*mode) {
                Ok(framing) => Ok(CaptureInto::Sink(framing)),
                Err(e) => Err(e),
            }
        },
{
    if is_console {
        if mode.is_some() {
            return Err(
                Error::Value("mode: applies only when capturing into a plain sink".to_owned()),
            );
        }
        return Ok(CaptureInto::Console);
    }
    match parse_mode(mode) {
        Ok(framing) => Ok(CaptureInto::Sink(framing)),
        Err(e) => Err(e),
    }
}

/// The outcome of a capture. It always ends with a flush, which emits a line
/// that was not ended; the block's error comes before that of the flush.
pub fn capture_outcome(block: Result<(), Error>, flushed: Result<(), Error>) -> (r: Result<
    (),
    Error,
>)
    ensures
        outcome(r) == match block {
            Err(e) => Err(e@),
            Ok(()) => outcome(flushed),
        },
{
    match block {
        Err(e) => Err(e),
        Ok(()) => flushed,
    }
}

/// What a capture of a string reports: one line ending goes unless it was
/// asked to stay.
pub fn captured_text(text: &str, chomp: Option<bool>) -> (r: &str)
    ensures
        r@ == if chomp == Some(false) {
            text@
        } else {
            chomped(text@)
        },
{
    match chomp {
        Some(false) => text,
        _ => strip_line_ending(text),
    }
}

/// Where a muted strand's own output goes: to the discarding console only if
/// it was the default output, which follows the capture anyway.
pub fn mute_output(is_default: bool, console: ConsoleId, output: ConsoleId) -> (r: ConsoleId)
    ensures
        r == if is_default {
            console
        } else {
            output
        },
{
    if is_default {
        console
    } else {
        output
    }
}

} // verus!
