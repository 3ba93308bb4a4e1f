//! The server side of a SOCKS5 handshake (no authentication, CONNECT only), as a
//! machine that is handed the bytes it asks for and says what to write back. The
//! caller reads exactly `need` bytes from the client, hands them to `receive`, and
//! performs the action it gets; the bytes the client sent decide everything else.

use vstd::prelude::*;
use vstd::utf8::{valid_utf8, decode_utf8};
use crate::text::{decimal, decimal_string, owned, push_char, push_str};

verus! {

/// Where the handshake stands: which part of the client's messages comes next.
#[derive(Debug, Clone, Copy, PartialEq, Eq, Structural)]
pub enum Socks5Stage {
    /// Version and number of authentication methods (2 bytes).
    Greeting,
    /// The authentication methods offered (one byte each).
    Methods,
    /// Version, command, reserved byte and address type (4 bytes).
    Request,
    /// An IPv4 address (4 bytes).
    Ipv4,
    /// The length of a domain name (1 byte).
    DomainLength,
    /// A domain name.
    Domain,
    /// An IPv6 address (16 bytes).
    Ipv6,
    /// The destination port, big-endian (2 bytes).
    Port,
    /// The handshake is over.
    Finished,
}

/// The handshake in progress.
pub struct Socks5Negotiation {
    stage: Socks5Stage,
    need: usize,
    host: String,
}

/// The handshake as a value: its stage, the bytes it waits for, and the host read so
/// far.
pub struct NegotiationView {
    pub stage: Socks5Stage,
    pub need: nat,
    pub host: Seq<char>,
}

/// What the caller does with the outcome of `receive`.
#[derive(Debug)]
pub enum Socks5Action {
    /// Read the next `need` bytes.
    Continue,
    /// Write these bytes to the client, then read the next `need` bytes.
    Reply(Vec<u8>),
    /// Write these bytes to the client (a failed write does not matter) and end with
    /// this error.
    Refuse(Vec<u8>, String),
    /// End with this error, writing nothing.
    Fail(String),
    /// Write this reply; the client asked to be connected to this host and port.
    Connect(String, u16, Vec<u8>),
}

/// An action as a value.
pub enum ActionView {
    Continue,
    Reply(Seq<u8>),
    Refuse(Seq<u8>, Seq<char>),
    Fail(Seq<char>),
    Connect(Seq<char>, u16, Seq<u8>),
}

impl View for Socks5Negotiation {
    type V = NegotiationView;

    closed spec fn view(&self) -> NegotiationView {
        NegotiationView { stage: self.stage, need: self.need as nat, host: self.host@ }
    }
}

impl View for Socks5Action {
    type V = ActionView;

    open spec fn view(&self) -> ActionView {
        match self {
            Socks5Action::Continue => ActionView::Continue,
            Socks5Action::Reply(b) => ActionView::Reply(b@),
            Socks5Action::Refuse(b, e) => ActionView::Refuse(b@, e@),
            Socks5Action::Fail(e) => ActionView::Fail(e@),
            Socks5Action::Connect(h, p, b) => ActionView::Connect(h@, *p, b@),
        }
    }
}

/// The message that `String::from_utf8` gives for bytes that are not UTF-8.
pub uninterp spec fn utf8_error_text(bytes: Seq<u8>) -> Seq<char>;

/// `String::from_utf8`: the bytes decode exactly when they are valid UTF-8, to the
/// characters they encode; otherwise the result is the error's message.
#[verifier::external_body]
fn string_from_utf8(bytes: Vec<u8>) -> (r: Result<String, String>)
    ensures
        r is Ok <==> valid_utf8(bytes@),
        r is Ok ==> r->Ok_0@ == decode_utf8(bytes@),
        r is Err ==> r->Err_0@ == utf8_error_text(bytes@),
{
    match String::from_utf8(bytes) {
        Ok(s) => Ok(s),
        Err(e) => Err(e.to_string()),
    }
}

/// The number of bytes a stage waits for, where it is fixed.
pub open spec fn fixed_need(stage: Socks5Stage) -> Option<nat> {
    match stage {
        Socks5Stage::Greeting => Some(2),
        Socks5Stage::Request => Some(4),
        Socks5Stage::Ipv4 => Some(4),
        Socks5Stage::DomainLength => Some(1),
        Socks5Stage::Ipv6 => Some(16),
        Socks5Stage::Port => Some(2),
        Socks5Stage::Finished => Some(0),
        _ => None,
    }
}

/// The reply a refused request gets: version, the reply code, and an empty IPv4
/// address and port.
pub open spec fn refusal(code: u8) -> Seq<u8> {
    seq![5u8, code, 0u8, 1u8, 0u8, 0u8, 0u8, 0u8, 0u8, 0u8]
}

/// A lowercase hexadecimal digit.
pub open spec fn hex_digit(d: nat) -> char {
    if d < 10 {
        ('0' as u32 + d) as char
    } else {
        ('a' as u32 + (d - 10)) as char
    }
}

/// A byte as two lowercase hexadecimal digits.
pub open spec fn hex_byte(b: u8) -> Seq<char> {
    seq![hex_digit((b / 16) as nat), hex_digit((b % 16) as nat)]
}

/// The first `n` groups of an IPv6 address, four hexadecimal digits each, joined
/// by `:`.
pub open spec fn ipv6_groups(a: Seq<u8>, n: nat) -> Seq<char>
    decreases n,
{
    if n == 0 {
        Seq::empty()
    } else {
        let group = hex_byte(a[2 * (n - 1)]) + hex_byte(a[2 * (n - 1) + 1]);
        if n == 1 {
            group
        } else {
            ipv6_groups(a, (n - 1) as nat) + ":"@ + group
        }
    }
}

/// An IPv6 address as the host text of a connection: in brackets, eight groups of
/// four hexadecimal digits.
pub open spec fn ipv6_text(a: Seq<u8>) -> Seq<char> {
    "["@ + ipv6_groups(a, 8) + "]"@
}

/// An IPv4 address in dotted decimal.
pub open spec fn ipv4_text(a: Seq<u8>) -> Seq<char> {
    decimal(a[0] as nat) + "."@ + decimal(a[1] as nat) + "."@ + decimal(a[2] as nat) + "."@
        + decimal(a[3] as nat)
}

/// The machine before anything was read.
pub open spec fn start_view() -> NegotiationView {
    NegotiationView { stage: Socks5Stage::Greeting, need: 2, host: Seq::empty() }
}

/// Waiting for `need` bytes of `stage`, with the host read so far.
pub open spec fn waiting(stage: Socks5Stage, need: nat, host: Seq<char>) -> NegotiationView {
    NegotiationView { stage, need, host }
}

/// The end of the handshake.
pub open spec fn finished(host: Seq<char>) -> NegotiationView {
    NegotiationView { stage: Socks5Stage::Finished, need: 0, host }
}

/// One step of the handshake: what the bytes a stage waited for make of the machine,
/// and what the caller is to do.
pub open spec fn step(s: NegotiationView, bytes: Seq<u8>) -> (NegotiationView, ActionView) {
    match s.stage {
        Socks5Stage::Greeting => if bytes[0] != 5 {
            (finished(s.host), ActionView::Fail("Unsupported SOCKS version: "@ + decimal(bytes[0] as nat)))
        } else {
            (waiting(Socks5Stage::Methods, bytes[1] as nat, s.host), ActionView::Continue)
        },
        Socks5Stage::Methods => if bytes.contains(0u8) {
            (waiting(Socks5Stage::Request, 4, s.host), ActionView::Reply(seq![5u8, 0u8]))
        } else {
            (
                finished(s.host),
                ActionView::Refuse(seq![5u8, 0xffu8], "No supported authentication methods"@),
            )
        },
        Socks5Stage::Request => if bytes[0] != 5 {
            (
                finished(s.host),
                ActionView::Fail("Unsupported SOCKS version in request: "@ + decimal(bytes[0] as nat)),
            )
        } else if bytes[1] != 1 {
            (
                finished(s.host),
                ActionView::Refuse(refusal(7), "Unsupported command: "@ + decimal(bytes[1] as nat)),
            )
        } else if bytes[3] == 1 {
            (waiting(Socks5Stage::Ipv4, 4, s.host), ActionView::Continue)
        } else if bytes[3] == 3 {
            (waiting(Socks5Stage::DomainLength, 1, s.host), ActionView::Continue)
        } else if bytes[3] == 4 {
            (waiting(Socks5Stage::Ipv6, 16, s.host), ActionView::Continue)
        } else {
            (
                finished(s.host),
                ActionView::Refuse(refusal(8), "Unsupported address type: "@ + decimal(bytes[3] as nat)),
            )
        },
        Socks5Stage::Ipv4 => (waiting(Socks5Stage::Port, 2, ipv4_text(bytes)), ActionView::Continue),
        Socks5Stage::DomainLength => (
            waiting(Socks5Stage::Domain, bytes[0] as nat, s.host),
            ActionView::Continue,
        ),
        Socks5Stage::Domain => if valid_utf8(bytes) {
            (waiting(Socks5Stage::Port, 2, decode_utf8(bytes)), ActionView::Continue)
        } else {
            (finished(s.host), ActionView::Fail("Invalid UTF-8 domain name: "@ + utf8_error_text(bytes)))
        },
        Socks5Stage::Ipv6 => (waiting(Socks5Stage::Port, 2, ipv6_text(bytes)), ActionView::Continue),
        Socks5Stage::Port => (
            finished(s.host),
            ActionView::Connect(s.host, (bytes[0] as nat * 256 + bytes[1] as nat) as u16, refusal(0)),
        ),
        Socks5Stage::Finished => (s, ActionView::Continue),
    }
}

/// What a failed read at a stage is reported as, before the cause.
pub open spec fn read_context(stage: Socks5Stage) -> Seq<char> {
    match stage {
        Socks5Stage::Greeting => "Failed to read SOCKS5 greeting"@,
        Socks5Stage::Methods => "Failed to read SOCKS5 auth methods"@,
        Socks5Stage::Request => "Failed to read SOCKS5 request header"@,
        Socks5Stage::Ipv4 => "Failed to read SOCKS5 IPv4"@,
        Socks5Stage::DomainLength => "Failed to read SOCKS5 domain len"@,
        Socks5Stage::Domain => "Failed to read SOCKS5 domain"@,
        Socks5Stage::Ipv6 => "Failed to read SOCKS5 IPv6"@,
        Socks5Stage::Port => "Failed to read SOCKS5 port"@,
        Socks5Stage::Finished => "Failed to read SOCKS5 data"@,
    }
}

fn hex_digit_char(d: u8) -> (c: char)
    requires
        d < 16,
    ensures
        c == hex_digit(d as nat),
{
    if d < 10 {
        (48u8 + d) as char
    } else {
        (97u8 + (d - 10)) as char
    }
}

fn push_hex_byte(s: &mut String, b: u8)
    ensures
        final(s)@ == old(s)@ + hex_byte(b),
{
    push_char(s, hex_digit_char(b / 16));
    push_char(s, hex_digit_char(b % 16));
}

/// The host text of an IPv6 address.
pub fn format_ipv6(a: &[u8]) -> (r: String)
    requires
        a@.len() == 16,
    ensures
        r@ == ipv6_text(a@),
{
    let mut s = owned("[");
    let mut n: usize = 0;
    while n < 8
        invariant
            n <= 8,
            a@.len() == 16,
            s@ == "["@ + ipv6_groups(a@, n as nat),
        decreases 8 - n,
    {
        if n > 0 {
            push_str(&mut s, ":");
        }
        push_hex_byte(&mut s, a[2 * n]);
        push_hex_byte(&mut s, a[2 * n + 1]);
        n += 1;
        proof {
            let group = hex_byte(a@[2 * (n - 1)]) + hex_byte(a@[2 * (n - 1) + 1]);
            if n == 1 {
                assert(ipv6_groups(a@, 0) =~= Seq::<char>::empty());
                assert(s@ =~= "["@ + group);
            } else {
                assert(s@ =~= "["@ + ipv6_groups(a@, (n - 1) as nat) + ":"@ + group);
            }
        }
    }
    push_str(&mut s, "]");
    s
}

/// The host text of an IPv4 address.
pub fn format_ipv4(a: &[u8]) -> (r: String)
    requires
        a@.len() == 4,
    ensures
        r@ == ipv4_text(a@),
{
    let mut s = decimal_string(a[0] as u64);
    let mut i: usize = 1;
    while i < 4
        invariant
            1 <= i <= 4,
            a@.len() == 4,
            s@ == (if i == 1 {
                decimal(a@[0] as nat)
            } else if i == 2 {
                decimal(a@[0] as nat) + "."@ + decimal(a@[1] as nat)
            } else if i == 3 {
                decimal(a@[0] as nat) + "."@ + decimal(a@[1] as nat) + "."@ + decimal(a@[2] as nat)
            } else {
                ipv4_text(a@)
            }),
        decreases 4 - i,
    {
        push_str(&mut s, ".");
        let d = decimal_string(a[i] as u64);
        push_str(&mut s, d.as_str());
        i += 1;
    }
    s
}

fn message_with_number(prefix: &str, n: u8) -> (r: String)
    ensures
        r@ == prefix@ + decimal(n as nat),
{
    let mut s = owned(prefix);
    let d = decimal_string(n as u64);
    push_str(&mut s, d.as_str());
    s
}

fn refusal_bytes(code: u8) -> (r: Vec<u8>)
    ensures
        r@ == refusal(code),
{
    let r = vec![5u8, code, 0u8, 1u8, 0u8, 0u8, 0u8, 0u8, 0u8, 0u8];
    assert(r@ =~= refusal(code));
    r
}

fn contains_no_auth(methods: &[u8]) -> (r: bool)
    ensures
        r == methods@.contains(0u8),
{
    let mut i: usize = 0;
    while i < methods.len()
        invariant
            i <= methods@.len(),
            forall|j: int| 0 <= j < i ==> methods@[j] != 0u8,
        decreases methods@.len() - i,
    {
        if methods[i] == 0 {
            assert(methods@[i as int] == 0u8);
            return true;
        }
        i += 1;
    }
    false
}

impl Socks5Negotiation {
    /// The bytes the machine waits for next, where it is fixed by the stage.
    pub closed spec fn well_formed(&self) -> bool {
        match fixed_need(self.stage) {
            Some(n) => self.need == n,
            None => self.need <= 255,
        }
    }

    /// A handshake that waits for the client's greeting.
    pub fn new() -> (r: Self)
        ensures
            r@ == start_view(),
            r.well_formed(),
    {
        Socks5Negotiation { stage: Socks5Stage::Greeting, need: 2, host: String::new() }
    }

    /// The stage the handshake is in.
    pub fn stage(&self) -> (r: Socks5Stage)
        ensures
            r == self@.stage,
    {
        self.stage
    }

    /// The number of bytes to read from the client next.
    pub fn need(&self) -> (r: usize)
        ensures
            r == self@.need,
    {
        self.need
    }

    /// Takes the bytes the current stage waited for and says what to do.
    pub fn receive(&mut self, bytes: &[u8]) -> (r: Socks5Action)
        requires
            old(self).well_formed(),
            old(self)@.stage != Socks5Stage::Finished,
            bytes@.len() == old(self)@.need,
        ensures
            final(self).well_formed(),
            (final(self)@, r@) == step(old(self)@, bytes@),
    {
        match self.stage {
            Socks5Stage::Greeting => {
                if bytes[0] != 5 {
                    self.stage = Socks5Stage::Finished;
                    self.need = 0;
                    Socks5Action::Fail(message_with_number("Unsupported SOCKS version: ", bytes[0]))
                } else {
                    self.stage = Socks5Stage::Methods;
                    self.need = bytes[1] as usize;
                    Socks5Action::Continue
                }
            },
            Socks5Stage::Methods => {
                if contains_no_auth(bytes) {
                    self.stage = Socks5Stage::Request;
                    self.need = 4;
                    let reply = vec![5u8, 0u8];
                    assert(reply@ =~= seq![5u8, 0u8]);
                    Socks5Action::Reply(reply)
                } else {
                    self.stage = Socks5Stage::Finished;
                    self.need = 0;
                    let reply = vec![5u8, 0xffu8];
                    assert(reply@ =~= seq![5u8, 0xffu8]);
                    Socks5Action::Refuse(reply, owned("No supported authentication methods"))
                }
            },
            Socks5Stage::Request => {
                if bytes[0] != 5 {
                    self.stage = Socks5Stage::Finished;
                    self.need = 0;
                    Socks5Action::Fail(message_with_number("Unsupported SOCKS version in request: ", bytes[0]))
                } else if bytes[1] != 1 {
                    self.stage = Socks5Stage::Finished;
                    self.need = 0;
                    Socks5Action::Refuse(refusal_bytes(7), message_with_number("Unsupported command: ", bytes[1]))
                } else if bytes[3] == 1 {
                    self.stage = Socks5Stage::Ipv4;
                    self.need = 4;
                    Socks5Action::Continue
                } else if bytes[3] == 3 {
                    self.stage = Socks5Stage::DomainLength;
                    self.need = 1;
                    Socks5Action::Continue
                } else if bytes[3] == 4 {
                    self.stage = Socks5Stage::Ipv6;
                    self.need = 16;
                    Socks5Action::Continue
                } else {
                    self.stage = Socks5Stage::Finished;
                    self.need = 0;
                    Socks5Action::Refuse(
                        refusal_bytes(8),
                        message_with_number("Unsupported address type: ", bytes[3]),
                    )
                }
            },
            Socks5Stage::Ipv4 => {
                self.host = format_ipv4(bytes);
                self.stage = Socks5Stage::Port;
                self.need = 2;
                Socks5Action::Continue
            },
            Socks5Stage::DomainLength => {
                self.stage = Socks5Stage::Domain;
                self.need = bytes[0] as usize;
                Socks5Action::Continue
            },
            Socks5Stage::Domain => {
                let mut owned_bytes: Vec<u8> = Vec::new();
                let mut i: usize = 0;
                while i < bytes.len()
                    invariant
                        i <= bytes@.len(),
                        owned_bytes@ == bytes@.subrange(0, i as int),
                    decreases bytes@.len() - i,
                {
                    owned_bytes.push(bytes[i]);
                    i += 1;
                    assert(owned_bytes@ =~= bytes@.subrange(0, i as int));
                }
                assert(owned_bytes@ =~= bytes@);
                match string_from_utf8(owned_bytes) {
                    Ok(host) => {
                        self.host = host;
                        self.stage = Socks5Stage::Port;
                        self.need = 2;
                        Socks5Action::Continue
                    },
                    Err(e) => {
                        self.stage = Socks5Stage::Finished;
                        self.need = 0;
                        let mut msg = owned("Invalid UTF-8 domain name: ");
                        push_str(&mut msg, e.as_str());
                        Socks5Action::Fail(msg)
                    },
                }
            },
            Socks5Stage::Ipv6 => {
                self.host = format_ipv6(bytes);
                self.stage = Socks5Stage::Port;
                self.need = 2;
                Socks5Action::Continue
            },
            Socks5Stage::Port => {
                let port: u16 = (bytes[0] as u16) * 256 + bytes[1] as u16;
                self.stage = Socks5Stage::Finished;
                self.need = 0;
                Socks5Action::Connect(self.host.clone(), port, refusal_bytes(0))
            },
            Socks5Stage::Finished => Socks5Action::Continue,
        }
    }

    /// The error a failed read of the current stage ends with.
    pub fn read_error(&self, cause: &str) -> (r: String)
        ensures
            r@ == read_context(self@.stage) + ": "@ + cause@,
    {
        let mut s = owned(
            match self.stage {
                Socks5Stage::Greeting => "Failed to read SOCKS5 greeting",
                Socks5Stage::Methods => "Failed to read SOCKS5 auth methods",
                Socks5Stage::Request => "Failed to read SOCKS5 request header",
                Socks5Stage::Ipv4 => "Failed to read SOCKS5 IPv4",
                Socks5Stage::DomainLength => "Failed to read SOCKS5 domain len",
                Socks5Stage::Domain => "Failed to read SOCKS5 domain",
                Socks5Stage::Ipv6 => "Failed to read SOCKS5 IPv6",
                Socks5Stage::Port => "Failed to read SOCKS5 port",
                Socks5Stage::Finished => "Failed to read SOCKS5 data",
            },
        );
        push_str(&mut s, ": ");
        push_str(&mut s, cause);
        s
    }

    /// The error a failed write of a reply ends with: the greeting reply while the
    /// request is awaited, the request reply once the handshake is over.
    pub fn write_error(&self, cause: &str) -> (r: String)
        ensures
            r@ == (if self@.stage == Socks5Stage::Finished {
                "Failed to write SOCKS5 request reply: "@
            } else {
                "Failed to write SOCKS5 greeting reply: "@
            }) + cause@,
    {
        let mut s = if self.stage == Socks5Stage::Finished {
            owned("Failed to write SOCKS5 request reply: ")
        } else {
            owned("Failed to write SOCKS5 greeting reply: ")
        };
        push_str(&mut s, cause);
        s
    }
}

/// The handshake ends exactly when a step does not ask for more bytes: after a
/// refusal, a failure or a connect, and never after a step that reads on.
pub proof fn lemma_step_ends_exactly_on_outcome(s: NegotiationView, bytes: Seq<u8>)
    requires
        s.stage != Socks5Stage::Finished,
    ensures
        (step(s, bytes).0.stage == Socks5Stage::Finished) <==> !(step(s, bytes).1 is Continue
            || step(s, bytes).1 is Reply),
{
}

/// A client that offers "no authentication" among its methods and asks to CONNECT to
/// a domain name (valid UTF-8) and a port is accepted: the greeting is answered with
/// the chosen method, and the handshake ends connecting to that domain and port with
/// the success reply.
pub proof fn lemma_domain_connect_accepted(methods: Seq<u8>, domain: Seq<u8>, hi: u8, lo: u8)
    requires
        methods.contains(0u8),
        methods.len() <= 255,
        domain.len() <= 255,
        valid_utf8(domain),
    ensures
        ({
            let (s1, a1) = step(start_view(), seq![5u8, methods.len() as u8]);
            let (s2, a2) = step(s1, methods);
            let (s3, a3) = step(s2, seq![5u8, 1u8, 0u8, 3u8]);
            let (s4, a4) = step(s3, seq![domain.len() as u8]);
            let (s5, a5) = step(s4, domain);
            let (s6, a6) = step(s5, seq![hi, lo]);
            &&& a1 is Continue && s1.need == methods.len()
            &&& a2 == ActionView::Reply(seq![5u8, 0u8])
            &&& a3 is Continue && a4 is Continue && s4.need == domain.len()
            &&& a5 is Continue
            &&& a6 == ActionView::Connect(decode_utf8(domain), (hi as nat * 256 + lo as nat) as u16, refusal(0))
            &&& s6.stage == Socks5Stage::Finished
        }),
{
}


proof fn lemma_ipv6_groups_len(a: Seq<u8>, n: nat)
    requires
        n >= 1,
    ensures
        ipv6_groups(a, n).len() == 5 * n - 1,
    decreases n,
{
    reveal_strlit(":");
    if n > 1 {
        lemma_ipv6_groups_len(a, (n - 1) as nat);
    }
}

/// A CONNECT request names its destination by one of three address types: an IPv4
/// address (type 1) is read as 4 bytes, a domain name (type 3) as a length byte and
/// that many bytes, an IPv6 address (type 4) as 16 bytes; none of them is refused.
/// Any other address type is refused with reply code 8.
pub proof fn lemma_request_reads_each_address_type(s: NegotiationView, bytes: Seq<u8>)
    requires
        s.stage == Socks5Stage::Request,
        bytes.len() == 4,
        bytes[0] == 5,
        bytes[1] == 1,
    ensures
        bytes[3] == 1 ==> step(s, bytes).1 is Continue && step(s, bytes).0.stage == Socks5Stage::Ipv4
            && step(s, bytes).0.need == 4,
        bytes[3] == 3 ==> step(s, bytes).1 is Continue && step(s, bytes).0.stage == Socks5Stage::DomainLength
            && step(s, bytes).0.need == 1,
        bytes[3] == 4 ==> step(s, bytes).1 is Continue && step(s, bytes).0.stage == Socks5Stage::Ipv6
            && step(s, bytes).0.need == 16,
        !(bytes[3] == 1 || bytes[3] == 3 || bytes[3] == 4) ==> step(s, bytes).1 is Refuse
            && step(s, bytes).1->Refuse_0 == refusal(8),
{
}

/// A client that offers "no authentication" among its methods and asks to CONNECT to
/// an IPv6 address and a port is accepted: after the greeting reply, the 16 address
/// bytes and then the port are read, and the handshake ends connecting to the address
/// (in brackets, eight groups of four hexadecimal digits, 41 characters) and that
/// port with the success reply.
pub proof fn lemma_ipv6_connect_accepted(methods: Seq<u8>, address: Seq<u8>, hi: u8, lo: u8)
    requires
        methods.contains(0u8),
        methods.len() <= 255,
        address.len() == 16,
    ensures
        ({
            let (s1, a1) = step(start_view(), seq![5u8, methods.len() as u8]);
            let (s2, a2) = step(s1, methods);
            let (s3, a3) = step(s2, seq![5u8, 1u8, 0u8, 4u8]);
            let (s4, a4) = step(s3, address);
            let (s5, a5) = step(s4, seq![hi, lo]);
            &&& a1 is Continue && s1.need == methods.len()
            &&& a2 == ActionView::Reply(seq![5u8, 0u8])
            &&& a3 is Continue && s3.stage == Socks5Stage::Ipv6 && s3.need == 16
            &&& a4 is Continue && s4.stage == Socks5Stage::Port && s4.need == 2
            &&& a5 == ActionView::Connect(ipv6_text(address), (hi as nat * 256 + lo as nat) as u16, refusal(0))
            &&& s5.stage == Socks5Stage::Finished
            &&& ipv6_text(address).len() == 41 && ipv6_text(address)[0] == '['
            &&& ipv6_text(address)[40] == ']'
        }),
{
    reveal_strlit("[");
    reveal_strlit("]");
    lemma_ipv6_groups_len(address, 8);
}

} // verus!
