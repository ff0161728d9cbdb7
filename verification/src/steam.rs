//! The remote control channel into the running target client.
//!
//! The channel discovers the target's shared scripting context through
//! its debug endpoint, and sends fire-and-forget JSON commands over one
//! duplex connection: a page reload to make the target pick up patched
//! assets, and ad hoc script evaluation.  Opening connections and
//! carrying bytes over them is the caller's work; the library decides
//! which context to pick, frames the command bytes exactly, and bounds
//! the retries.

use vstd::prelude::*;
use vstd::string::StrSliceExecFns;
use vstd::string::StringSliceAdditionalSpecFns;

use crate::lifecycle::ProbeResult;
use crate::patch::{apply_model, swapped_all, AssetResolution, FileWrite, Patch};
use crate::patch::{apply_patches, revert_patches};
use crate::text::copy_bytes;

verus! {

/// The title of the target's shared scripting context, the sentinel
/// that the readiness probe looks for.
pub open spec fn context_title() -> Seq<u8> {
    ("SharedJSContext").spec_bytes()
}

/// One entry of the debug endpoint's context list: a page title and the
/// address its debugging connection can be opened at.
pub struct Tab {
    pub title: Vec<u8>,
    pub url: Vec<u8>,
}

/// The mathematical value of a [`Tab`].
pub struct TabView {
    pub title: Seq<u8>,
    pub url: Seq<u8>,
}

impl View for Tab {
    type V = TabView;

    open spec fn view(&self) -> TabView {
        TabView { title: self.title@, url: self.url@ }
    }
}

impl DeepView for Tab {
    type V = TabView;

    open spec fn deep_view(&self) -> TabView {
        self.view()
    }
}

/// A tab the channel can connect to: the shared scripting context with
/// a non-empty connection address.
pub open spec fn is_context_tab(t: TabView) -> bool {
    t.title == context_title() && t.url.len() > 0
}

/// The connection address of the first usable context tab, if any.
pub open spec fn first_context(tabs: Seq<TabView>) -> Option<Seq<u8>>
    decreases tabs.len(),
{
    if tabs.len() == 0 {
        None
    } else if is_context_tab(tabs.first()) {
        Some(tabs.first().url)
    } else {
        first_context(tabs.drop_first())
    }
}

/// Picks the tab to connect to: the first whose title is the shared
/// scripting context and whose address is non-empty.
pub fn select_context(tabs: &Vec<Tab>) -> (r: Option<Vec<u8>>)
    ensures
        match r {
            Some(u) => first_context(tabs.deep_view()) == Some(u@),
            None => first_context(tabs.deep_view()) is None,
        },
{
    let ghost dv = tabs.deep_view();
    let sentinel = ("SharedJSContext").as_bytes_vec();
    let mut i: usize = 0;
    proof {
        assert(dv.skip(0) =~= dv);
    }
    while i < tabs.len()
        invariant
            i <= tabs@.len(),
            dv == tabs.deep_view(),
            dv.len() == tabs@.len(),
            sentinel@ == context_title(),
            first_context(dv) == first_context(dv.skip(i as int)),
        decreases tabs@.len() - i,
    {
        proof {
            assert(dv.skip(i as int).first() == dv[i as int]);
            assert(dv.skip(i as int).drop_first() =~= dv.skip(i + 1 as int));
        }
        if crate::text::bytes_eq(&tabs[i].title, &sentinel) && tabs[i].url.len() > 0 {
            return Some(copy_bytes(&tabs[i].url));
        }
        i += 1;
    }
    proof {
        assert(dv.skip(dv.len() as int) =~= Seq::<TabView>::empty());
    }
    None
}

/// Whether some tab carries the shared scripting context's title; the
/// readiness probe asks only this, not whether it could connect.
pub open spec fn spec_has_context_title(tabs: Seq<TabView>) -> bool {
    exists|i: int| 0 <= i < tabs.len() && (#[trigger] tabs[i]).title == context_title()
}

/// Whether the context list names the shared scripting context.
pub fn has_context_title(tabs: &Vec<Tab>) -> (r: bool)
    ensures
        r == spec_has_context_title(tabs.deep_view()),
{
    let ghost dv = tabs.deep_view();
    let sentinel = ("SharedJSContext").as_bytes_vec();
    let mut i: usize = 0;
    while i < tabs.len()
        invariant
            i <= tabs@.len(),
            dv == tabs.deep_view(),
            dv.len() == tabs@.len(),
            sentinel@ == context_title(),
            forall|j: int| 0 <= j < i ==> (#[trigger] dv[j]).title != context_title(),
        decreases tabs@.len() - i,
    {
        if crate::text::bytes_eq(&tabs[i].title, &sentinel) {
            proof {
                assert((dv[i as int]).title == context_title());
            }
            return true;
        }
        i += 1;
    }
    false
}

/// Classifies one poll of the debug endpoint: no answer means the
/// target is unreachable; an answer is ready exactly when the shared
/// scripting context is named in it.
pub fn classify_probe(outcome: &Option<Vec<Tab>>) -> (r: ProbeResult)
    ensures
        match outcome {
            None => r == ProbeResult::Unreachable,
            Some(tabs) => r == (if spec_has_context_title(tabs.deep_view()) {
                ProbeResult::ReachableWithContext
            } else {
                ProbeResult::ReachableWithoutContext
            }),
        },
{
    match outcome {
        None => ProbeResult::Unreachable,
        Some(tabs) => {
            if has_context_title(tabs) {
                ProbeResult::ReachableWithContext
            } else {
                ProbeResult::ReachableWithoutContext
            }
        },
    }
}

/// The address discovery settles on, given the answers of the first
/// polls and the number of polls the bounded wait allows: the first
/// answer naming a usable context wins; running out of budget or
/// answers means discovery failed.
pub open spec fn spec_discover(polls: Seq<Option<Seq<TabView>>>, budget: int) -> Option<Seq<u8>>
    decreases polls.len(),
{
    if budget <= 0 || polls.len() == 0 {
        None
    } else {
        let rest = spec_discover(polls.drop_first(), budget - 1);
        match polls.first() {
            Some(tabs) => match first_context(tabs) {
                Some(u) => Some(u),
                None => rest,
            },
            None => rest,
        }
    }
}

/// Connection discovery over a recorded sequence of endpoint answers
/// (`None` when a poll got no answer), bounded by `max_polls`.
pub fn discover(polls: &Vec<Option<Vec<Tab>>>, max_polls: usize) -> (r: Option<Vec<u8>>)
    ensures
        match r {
            Some(u) => spec_discover(polls.deep_view(), max_polls as int) == Some(u@),
            None => spec_discover(polls.deep_view(), max_polls as int) is None,
        },
{
    let ghost dv = polls.deep_view();
    let mut i: usize = 0;
    proof {
        assert(dv.skip(0) =~= dv);
    }
    while i < polls.len() && i < max_polls
        invariant
            i <= polls@.len(),
            i <= max_polls,
            dv == polls.deep_view(),
            dv.len() == polls@.len(),
            spec_discover(dv, max_polls as int) == spec_discover(
                dv.skip(i as int),
                max_polls - i,
            ),
        decreases polls@.len() - i,
    {
        proof {
            assert(dv.skip(i as int).first() == dv[i as int]);
            assert(dv.skip(i as int).drop_first() =~= dv.skip(i + 1 as int));
        }
        if let Some(tabs) = &polls[i] {
            if let Some(url) = select_context(tabs) {
                return Some(url);
            }
        }
        i += 1;
    }
    None
}

/// If no answer within the bounded wait names a usable context,
/// discovery fails, and with it the whole connection attempt.
pub proof fn lemma_discovery_timeout(polls: Seq<Option<Seq<TabView>>>, budget: int)
    requires
        forall|i: int|
            0 <= i < polls.len() && i < budget ==> (match #[trigger] polls[i] {
                Some(tabs) => first_context(tabs) is None,
                None => true,
            }),
    ensures
        spec_discover(polls, budget) is None,
    decreases polls.len(),
{
    if budget > 0 && polls.len() > 0 {
        assert forall|i: int|
            0 <= i < polls.drop_first().len() && i < budget - 1 implies (match #[trigger] polls.drop_first()[i] {
            Some(tabs) => first_context(tabs) is None,
            None => true,
        }) by {
            assert(polls.drop_first()[i] == polls[i + 1]);
        }
        lemma_discovery_timeout(polls.drop_first(), budget - 1);
        assert(polls.first() == polls[0]);
    }
}

/// A lowercase hexadecimal digit.
pub open spec fn hex_digit(n: u8) -> u8 {
    if n < 10 {
        (0x30 + n) as u8
    } else {
        (0x57 + n) as u8
    }
}

/// How one byte of a script is written inside a JSON string literal:
/// quotes and backslashes are escaped, control characters take their
/// short escapes or a hexadecimal one, everything else passes through.
pub open spec fn escape_byte(b: u8) -> Seq<u8> {
    if b == 0x22 {
        seq![0x5cu8, 0x22u8]
    } else if b == 0x5c {
        seq![0x5cu8, 0x5cu8]
    } else if b == 0x08 {
        seq![0x5cu8, 0x62u8]
    } else if b == 0x09 {
        seq![0x5cu8, 0x74u8]
    } else if b == 0x0a {
        seq![0x5cu8, 0x6eu8]
    } else if b == 0x0c {
        seq![0x5cu8, 0x66u8]
    } else if b == 0x0d {
        seq![0x5cu8, 0x72u8]
    } else if b < 0x20 {
        seq![0x5cu8, 0x75u8, 0x30u8, 0x30u8, hex_digit(b / 16), hex_digit(b % 16)]
    } else {
        seq![b]
    }
}

/// A whole byte string written inside a JSON string literal.
pub open spec fn json_escaped(s: Seq<u8>) -> Seq<u8>
    decreases s.len(),
{
    if s.len() == 0 {
        Seq::<u8>::empty()
    } else {
        escape_byte(s.first()) + json_escaped(s.drop_first())
    }
}

/// Escapes a byte string for embedding in a JSON string literal.
pub fn json_escape(s: &Vec<u8>) -> (out: Vec<u8>)
    ensures
        out@ == json_escaped(s@),
{
    let mut out: Vec<u8> = Vec::new();
    let mut i: usize = 0;
    proof {
        assert(s@.skip(0) =~= s@);
        assert(Seq::<u8>::empty() + json_escaped(s@) =~= json_escaped(s@));
    }
    while i < s.len()
        invariant
            i <= s@.len(),
            json_escaped(s@) == out@ + json_escaped(s@.skip(i as int)),
        decreases s@.len() - i,
    {
        let ghost pre = out@;
        let ghost tail = s@.skip(i as int);
        let b = s[i];
        if b == 0x22 {
            out.push(0x5c);
            out.push(0x22);
        } else if b == 0x5c {
            out.push(0x5c);
            out.push(0x5c);
        } else if b == 0x08 {
            out.push(0x5c);
            out.push(0x62);
        } else if b == 0x09 {
            out.push(0x5c);
            out.push(0x74);
        } else if b == 0x0a {
            out.push(0x5c);
            out.push(0x6e);
        } else if b == 0x0c {
            out.push(0x5c);
            out.push(0x66);
        } else if b == 0x0d {
            out.push(0x5c);
            out.push(0x72);
        } else if b < 0x20 {
            out.push(0x5c);
            out.push(0x75);
            out.push(0x30);
            out.push(0x30);
            let hi = b / 16;
            let lo = b % 16;
            out.push(if hi < 10 { 0x30 + hi } else { 0x57 + hi });
            out.push(if lo < 10 { 0x30 + lo } else { 0x57 + lo });
        } else {
            out.push(b);
        }
        proof {
            assert(tail.first() == s@[i as int]);
            assert(tail.drop_first() =~= s@.skip(i + 1 as int));
            assert(out@ =~= pre + escape_byte(s@[i as int]));
            assert(pre + (escape_byte(s@[i as int]) + json_escaped(s@.skip(i + 1 as int))) =~= (pre
                + escape_byte(s@[i as int])) + json_escaped(s@.skip(i + 1 as int)));
        }
        i += 1;
    }
    proof {
        assert(s@.skip(s@.len() as int) =~= Seq::<u8>::empty());
        assert(out@ + Seq::<u8>::empty() =~= out@);
    }
    out
}

/// The page-reload command, byte for byte.
pub open spec fn reload_message() -> Seq<u8> {
    ("{\"id\":1,\"method\":\"Page.reload\"}").spec_bytes()
}

/// The script-evaluation command for a script, byte for byte: the fixed
/// frame around the escaped script text.
pub open spec fn evaluate_message(js: Seq<u8>) -> Seq<u8> {
    ("{\"id\":1,\"method\":\"Runtime.evaluate\",\"params\":{\"expression\":\"").spec_bytes()
        + json_escaped(js) + ("\"}}").spec_bytes()
}

/// How many attempts one command send may use before it is dropped.
pub const SEND_ATTEMPTS: u8 = 3;

/// The progress of one command send: how many attempts are left and
/// whether the command went out.
#[derive(PartialEq, Eq, Structural, Clone, Copy, Debug)]
pub struct SendProgress {
    pub retries_left: u8,
    pub delivered: bool,
}

/// What the sender observed on one attempt.
#[derive(PartialEq, Eq, Structural, Clone, Copy, Debug)]
pub enum SendEvent {
    /// The transmission succeeded.
    Delivered,
    /// The transmission failed; the connection is suspect.
    TransmitFailed,
    /// There was no open connection to transmit on.
    NotConnected,
}

/// What the sender must do next.
#[derive(PartialEq, Eq, Structural, Clone, Copy, Debug)]
pub enum SendDirective {
    /// Transmit the command on the open connection and report back.
    TransmitThenReport,
    /// Rebuild the connection first, then report back.
    ReconnectThenReport,
    /// Give up or finish: either the command went out, or the attempts
    /// are exhausted and the command is dropped, never an error to the
    /// caller.
    Stop,
}

/// A fresh send: all attempts available, nothing delivered yet.
pub fn send_begin() -> (p: SendProgress)
    ensures
        p.retries_left == SEND_ATTEMPTS,
        !p.delivered,
{
    SendProgress { retries_left: SEND_ATTEMPTS, delivered: false }
}

/// The next step a send owes, given whether a connection is open.
pub open spec fn spec_send_directive(p: SendProgress, has_connection: bool) -> SendDirective {
    if p.delivered || p.retries_left == 0 {
        SendDirective::Stop
    } else if has_connection {
        SendDirective::TransmitThenReport
    } else {
        SendDirective::ReconnectThenReport
    }
}

/// Decides the next step of a send.
pub fn send_directive(p: &SendProgress, has_connection: bool) -> (d: SendDirective)
    ensures
        d == spec_send_directive(*p, has_connection),
{
    if p.delivered || p.retries_left == 0 {
        SendDirective::Stop
    } else if has_connection {
        SendDirective::TransmitThenReport
    } else {
        SendDirective::ReconnectThenReport
    }
}

/// The progress after one attempt's outcome: success finishes the send,
/// any failure consumes one attempt.
pub open spec fn spec_send_absorb(p: SendProgress, e: SendEvent) -> SendProgress {
    match e {
        SendEvent::Delivered => SendProgress { retries_left: p.retries_left, delivered: true },
        SendEvent::TransmitFailed | SendEvent::NotConnected => SendProgress {
            retries_left: if p.retries_left > 0 {
                (p.retries_left - 1) as u8
            } else {
                0
            },
            delivered: false,
        },
    }
}

/// Absorbs one attempt's outcome into the send's progress.
pub fn send_absorb(p: SendProgress, e: SendEvent) -> (q: SendProgress)
    ensures
        q == spec_send_absorb(p, e),
{
    match e {
        SendEvent::Delivered => SendProgress { retries_left: p.retries_left, delivered: true },
        SendEvent::TransmitFailed | SendEvent::NotConnected => SendProgress {
            retries_left: if p.retries_left > 0 {
                p.retries_left - 1
            } else {
                0
            },
            delivered: false,
        },
    }
}

/// A send after a whole sequence of attempt outcomes.
pub open spec fn spec_run_send(p: SendProgress, events: Seq<SendEvent>) -> SendProgress
    decreases events.len(),
{
    if events.len() == 0 {
        p
    } else {
        spec_send_absorb(spec_run_send(p, events.drop_last()), events.last())
    }
}

/// No send retries forever: after as many failed attempts as there were
/// attempts available, and no success, the send stops, whatever the
/// connection state.
pub proof fn lemma_send_bounded(p: SendProgress, events: Seq<SendEvent>, has_connection: bool)
    requires
        !p.delivered,
        forall|i: int| 0 <= i < events.len() ==> events[i] != SendEvent::Delivered,
        events.len() >= p.retries_left,
    ensures
        spec_send_directive(spec_run_send(p, events), has_connection) == SendDirective::Stop,
    decreases events.len(),
{
    lemma_send_drains(p, events);
}

/// While no connection is open, the sender never transmits: after a
/// failed discovery, no command goes out.
pub proof fn lemma_no_transmit_without_connection(p: SendProgress)
    ensures
        spec_send_directive(p, false) != SendDirective::TransmitThenReport,
{
}

/// Failed attempts only ever drain the remaining attempts, one each.
proof fn lemma_send_drains(p: SendProgress, events: Seq<SendEvent>)
    requires
        !p.delivered,
        forall|i: int| 0 <= i < events.len() ==> events[i] != SendEvent::Delivered,
    ensures
        !spec_run_send(p, events).delivered,
        spec_run_send(p, events).retries_left <= p.retries_left,
        events.len() <= p.retries_left ==> spec_run_send(p, events).retries_left as int
            <= p.retries_left as int - events.len(),
        events.len() >= p.retries_left ==> spec_run_send(p, events).retries_left == 0,
    decreases events.len(),
{
    if events.len() > 0 {
        assert(forall|i: int|
            0 <= i < events.drop_last().len() ==> events.drop_last()[i] != SendEvent::Delivered);
        lemma_send_drains(p, events.drop_last());
    }
}

/// The remote control channel: owns at most one live connection at a
/// time, encodes the command protocol, and applies or reverts patch
/// sets.  The connection handle itself, like all I/O, lives with the
/// caller; the client tracks only whether one is open.
pub struct SteamClient {
    pub has_connection: bool,
}

impl SteamClient {
    /// A client with no connection open.
    pub fn new() -> (c: SteamClient)
        ensures
            !c.has_connection,
    {
        SteamClient { has_connection: false }
    }

    /// Records the outcome of a connection attempt: a freshly opened
    /// connection replaces whatever was held, a failed attempt leaves
    /// the client disconnected.
    pub fn connect(&mut self, socket_opened: bool)
        ensures
            final(self).has_connection == socket_opened,
    {
        self.has_connection = socket_opened;
    }

    /// Applies the patch set against the resolved assets; see
    /// [`apply_patches`].
    pub fn patch(&self, patches: &Vec<Patch>, res: &AssetResolution) -> (writes: Vec<FileWrite>)
        ensures
            writes.deep_view() == apply_model(patches.deep_view(), res@),
            forall|a: int, b: int|
                0 <= a < b < writes@.len() ==> writes@[a].path@ != writes@[b].path@,
    {
        apply_patches(patches, res)
    }

    /// Reverts the patch set against the resolved assets; see
    /// [`revert_patches`].
    pub fn unpatch(&self, patches: &Vec<Patch>, res: &AssetResolution) -> (writes: Vec<FileWrite>)
        ensures
            writes.deep_view() == apply_model(swapped_all(patches.deep_view()), res@),
            forall|a: int, b: int|
                0 <= a < b < writes@.len() ==> writes@[a].path@ != writes@[b].path@,
    {
        revert_patches(patches, res)
    }

    /// The page-reload command to transmit, forcing the target to load
    /// the patched assets.
    pub fn reboot(&self) -> (msg: Vec<u8>)
        ensures
            msg@ == reload_message(),
    {
        ("{\"id\":1,\"method\":\"Page.reload\"}").as_bytes_vec()
    }

    /// The script-evaluation command to transmit for a script.
    pub fn execute(&self, js_code: &str) -> (msg: Vec<u8>)
        ensures
            msg@ == evaluate_message(js_code.spec_bytes()),
    {
        let mut msg = (
            "{\"id\":1,\"method\":\"Runtime.evaluate\",\"params\":{\"expression\":\""
        ).as_bytes_vec();
        let body = json_escape(&js_code.as_bytes_vec());
        crate::text::append_bytes(&mut msg, &body);
        let close = ("\"}}").as_bytes_vec();
        crate::text::append_bytes(&mut msg, &close);
        msg
    }
}

/// The fixed per-user location of the patch marker file: its existence
/// is the persisted fact that the target is currently patched.
pub open spec fn spec_marker_path(username: Seq<char>) -> Seq<u8> {
    ("/home/").spec_bytes() + vstd::utf8::encode_utf8(username) + (
    "/steam-patch/patched").spec_bytes()
}

/// The path of the patch marker file for a user.
pub fn marker_path(username: &str) -> (p: Vec<u8>)
    ensures
        p@ == spec_marker_path(username@),
{
    let mut p = ("/home/").as_bytes_vec();
    let user = username.as_bytes_vec();
    crate::text::append_bytes(&mut p, &user);
    let rest = ("/steam-patch/patched").as_bytes_vec();
    crate::text::append_bytes(&mut p, &rest);
    p
}

} // verus!
