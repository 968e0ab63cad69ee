//! Startup-argument handling: classifying command-line tokens, collecting
//! listen addresses per protocol with duplicates dropped, defaulting to the
//! wildcard addresses when a protocol is left unspecified, and surfacing the
//! configuration errors. Turning an address token into socket addresses is a
//! name lookup the caller performs; the parser is a step machine that tells
//! its driver what to do next (feed a token, resolve a token) and consumes
//! the outcome, so every decision stays here.

use vstd::prelude::*;
use crate::addr::Address;

verus! {

/// Port used when an address token carries none, and by the wildcard
/// default addresses.
pub const DEFAULT_PORT: u16 = 6969;

/// The usage text shown for `-h` / `--help`.
pub fn get_help_string() -> (r: &'static str) {
    "Usage: whereyoufrom [options...]\nOptions:\n  -h, --help                      Display this help menu and exit\n  -V, --version                   Display the version number and exit\n  -v, --verbose                   Display additional information while running\n  -s, --silent                    Do not print to stdout\n  -t, --listen-tcp                Specify a TCP socket address to listen for incoming clients\n  -u, --listen-udp                Specify a UDP socket address to listen for incoming clients\n\nSocket addresses may be specified as an IPv4 or IPv6 address, or a domainname, and may include a port number. If no port is specified, then the default of 6969 will be used. If no address is specified for a transport protocol, then [::] and/or 0.0.0.0 will be used. To disable listening on a protocol, use \"-t -\" or \"-u -\".\n\n\nExamples:\nListens on all IPv4 addresses for UDP with port 6969, but only listens on 192.168.1.105:1234 on TCP:\n    whereyoufrom -t 192.168.1.105:1234\n\nListens only on IPv4 TCP requests coming from this same machine, default port 6969, no UDP:\n    whereyoufrom -t 127.0.0.1 -u -\n\nAuthor: Thomas Mizrahi\n"
}

/// What a run of arguments asks the program to do.
#[derive(Debug, PartialEq, Eq)]
pub enum ArgumentsRequest {
    Help,
    Version,
    Run(StartupArguments),
}

/// The validated startup configuration: verbosity flags and the listen
/// addresses per protocol (an empty list means the protocol is disabled).
#[derive(Debug, PartialEq, Eq)]
pub struct StartupArguments {
    pub verbose: bool,
    pub silent: bool,
    pub tcp_addresses: Vec<Address>,
    pub udp_addresses: Vec<Address>,
}

impl StartupArguments {
    /// A configuration with nothing set: not verbose, not silent, no
    /// addresses for either protocol.
    pub fn empty() -> (r: StartupArguments)
        ensures
            r.verbose == false,
            r.silent == false,
            r.tcp_addresses@ == Seq::<Address>::empty(),
            r.udp_addresses@ == Seq::<Address>::empty(),
    {
        StartupArguments {
            verbose: false,
            silent: false,
            tcp_addresses: Vec::new(),
            udp_addresses: Vec::new(),
        }
    }
}

/// How reading an address token for one protocol failed.
#[derive(Debug, PartialEq, Eq)]
pub enum SocketErrorType {
    /// The flag (held by the variant) came last, with no token after it.
    UnexpectedEnd(Vec<u8>),
    /// The token (second field) after the flag (first field) named no
    /// socket address.
    InvalidSocketAddress(Vec<u8>, Vec<u8>),
}

/// Why a run of arguments was rejected.
#[derive(Debug, PartialEq, Eq)]
pub enum ArgumentsError {
    /// The token held by the variant matched no known option.
    UnknownArgument(Vec<u8>),
    TcpListenError(SocketErrorType),
    UdpListenError(SocketErrorType),
    /// Both protocols were explicitly disabled.
    NoSocketsSpecified,
}

/// The transport protocol an address list belongs to.
#[derive(Debug, Clone, Copy, PartialEq, Eq, Structural)]
pub enum Protocol {
    Tcp,
    Udp,
}

/// The listen error of the given protocol.
pub fn make_listen_error(protocol: Protocol, error: SocketErrorType) -> (r: ArgumentsError)
    ensures
        protocol is Tcp ==> r == ArgumentsError::TcpListenError(error),
        protocol is Udp ==> r == ArgumentsError::UdpListenError(error),
{
    match protocol {
        Protocol::Tcp => ArgumentsError::TcpListenError(error),
        Protocol::Udp => ArgumentsError::UdpListenError(error),
    }
}

/// The option class of one command-line token.
#[derive(Debug, Clone, Copy, PartialEq, Eq, Structural)]
pub enum TokenClass {
    Empty,
    Help,
    Version,
    Verbose,
    Silent,
    ListenTcp,
    ListenUdp,
    Unknown,
}

/// ASCII uppercase letters folded to lowercase; all else unchanged.
pub open spec fn ascii_lower(b: u8) -> u8 {
    if ('A' as u8) <= b <= ('Z' as u8) {
        (b + 32) as u8
    } else {
        b
    }
}

/// Byte sequences equal up to ASCII case.
pub open spec fn eqic(a: Seq<u8>, b: Seq<u8>) -> bool {
    a.len() == b.len() && forall|i: int| 0 <= i < a.len() ==> ascii_lower(a[i]) == ascii_lower(b[i])
}

/// `--help`
pub open spec fn help_literal() -> Seq<u8> {
    seq![('-' as u8), ('-' as u8), ('h' as u8), ('e' as u8), ('l' as u8), ('p' as u8)]
}

/// `--version`
pub open spec fn version_literal() -> Seq<u8> {
    seq![
        ('-' as u8),
        ('-' as u8),
        ('v' as u8),
        ('e' as u8),
        ('r' as u8),
        ('s' as u8),
        ('i' as u8),
        ('o' as u8),
        ('n' as u8),
    ]
}

/// `--verbose`
pub open spec fn verbose_literal() -> Seq<u8> {
    seq![
        ('-' as u8),
        ('-' as u8),
        ('v' as u8),
        ('e' as u8),
        ('r' as u8),
        ('b' as u8),
        ('o' as u8),
        ('s' as u8),
        ('e' as u8),
    ]
}

/// `--silent`
pub open spec fn silent_literal() -> Seq<u8> {
    seq![
        ('-' as u8),
        ('-' as u8),
        ('s' as u8),
        ('i' as u8),
        ('l' as u8),
        ('e' as u8),
        ('n' as u8),
        ('t' as u8),
    ]
}

/// `--listen-tcp`
pub open spec fn listen_tcp_literal() -> Seq<u8> {
    seq![
        ('-' as u8),
        ('-' as u8),
        ('l' as u8),
        ('i' as u8),
        ('s' as u8),
        ('t' as u8),
        ('e' as u8),
        ('n' as u8),
        ('-' as u8),
        ('t' as u8),
        ('c' as u8),
        ('p' as u8),
    ]
}

/// `--listen-udp`
pub open spec fn listen_udp_literal() -> Seq<u8> {
    seq![
        ('-' as u8),
        ('-' as u8),
        ('l' as u8),
        ('i' as u8),
        ('s' as u8),
        ('t' as u8),
        ('e' as u8),
        ('n' as u8),
        ('-' as u8),
        ('u' as u8),
        ('d' as u8),
        ('p' as u8),
    ]
}

/// `:6969`, appended to an address token that resolved to nothing because
/// it carries no port of its own.
pub open spec fn port_suffix() -> Seq<u8> {
    seq![(':' as u8), ('6' as u8), ('9' as u8), ('6' as u8), ('9' as u8)]
}

/// The class of a token: short flags match exactly, long flags up to ASCII
/// case, in the order the options are tried.
pub open spec fn classify_spec(t: Seq<u8>) -> TokenClass {
    if t.len() == 0 {
        TokenClass::Empty
    } else if t == seq![('-' as u8), ('h' as u8)] || eqic(t, help_literal()) {
        TokenClass::Help
    } else if t == seq![('-' as u8), ('V' as u8)] || eqic(t, version_literal()) {
        TokenClass::Version
    } else if t == seq![('-' as u8), ('v' as u8)] || eqic(t, verbose_literal()) {
        TokenClass::Verbose
    } else if t == seq![('-' as u8), ('s' as u8)] || eqic(t, silent_literal()) {
        TokenClass::Silent
    } else if t == seq![('-' as u8), ('t' as u8)] || eqic(t, listen_tcp_literal()) {
        TokenClass::ListenTcp
    } else if t == seq![('-' as u8), ('u' as u8)] || eqic(t, listen_udp_literal()) {
        TokenClass::ListenUdp
    } else {
        TokenClass::Unknown
    }
}

/// ASCII whitespace: space, tab, line feed, form feed, carriage return.
pub open spec fn is_ascii_space(b: u8) -> bool {
    b == 32 || b == 9 || b == 10 || b == 12 || b == 13
}

/// A token that disables a protocol: a single `-` surrounded by nothing
/// but ASCII whitespace.
pub open spec fn is_disable_token(t: Seq<u8>) -> bool {
    exists|i: int|
        0 <= i < t.len() && t[i] == ('-' as u8) && (forall|j: int|
            0 <= j < t.len() && j != i ==> is_ascii_space(t[j]))
}

fn to_lower(b: u8) -> (r: u8)
    ensures
        r == ascii_lower(b),
{
    if ('A' as u8) <= b && b <= ('Z' as u8) {
        b + 32
    } else {
        b
    }
}

fn eq_ignore_ascii_case(a: &Vec<u8>, b: &Vec<u8>) -> (r: bool)
    ensures
        r == eqic(a@, b@),
{
    if a.len() != b.len() {
        return false;
    }
    let mut i: usize = 0;
    while i < a.len()
        invariant
            a@.len() == b@.len(),
            i <= a@.len(),
            forall|j: int| 0 <= j < i ==> ascii_lower(a@[j]) == ascii_lower(b@[j]),
        decreases a@.len() - i,
    {
        if to_lower(a[i]) != to_lower(b[i]) {
            return false;
        }
        i = i + 1;
    }
    true
}

fn is_short_flag(t: &Vec<u8>, c: u8) -> (r: bool)
    ensures
        r == (t@ == seq![('-' as u8), c]),
{
    let r = t.len() == 2 && t[0] == ('-' as u8) && t[1] == c;
    proof {
        if r {
            assert(t@ =~= seq![('-' as u8), c]);
        }
    }
    r
}

fn lit_help() -> (r: Vec<u8>)
    ensures
        r@ == help_literal(),
{
    let mut v: Vec<u8> = Vec::new();
    v.push('-' as u8);
    v.push('-' as u8);
    v.push('h' as u8);
    v.push('e' as u8);
    v.push('l' as u8);
    v.push('p' as u8);
    proof {
        assert(v@ =~= help_literal());
    }
    v
}

fn lit_version() -> (r: Vec<u8>)
    ensures
        r@ == version_literal(),
{
    let mut v: Vec<u8> = Vec::new();
    v.push('-' as u8);
    v.push('-' as u8);
    v.push('v' as u8);
    v.push('e' as u8);
    v.push('r' as u8);
    v.push('s' as u8);
    v.push('i' as u8);
    v.push('o' as u8);
    v.push('n' as u8);
    proof {
        assert(v@ =~= version_literal());
    }
    v
}

fn lit_verbose() -> (r: Vec<u8>)
    ensures
        r@ == verbose_literal(),
{
    let mut v: Vec<u8> = Vec::new();
    v.push('-' as u8);
    v.push('-' as u8);
    v.push('v' as u8);
    v.push('e' as u8);
    v.push('r' as u8);
    v.push('b' as u8);
    v.push('o' as u8);
    v.push('s' as u8);
    v.push('e' as u8);
    proof {
        assert(v@ =~= verbose_literal());
    }
    v
}

fn lit_silent() -> (r: Vec<u8>)
    ensures
        r@ == silent_literal(),
{
    let mut v: Vec<u8> = Vec::new();
    v.push('-' as u8);
    v.push('-' as u8);
    v.push('s' as u8);
    v.push('i' as u8);
    v.push('l' as u8);
    v.push('e' as u8);
    v.push('n' as u8);
    v.push('t' as u8);
    proof {
        assert(v@ =~= silent_literal());
    }
    v
}

fn lit_listen_tcp() -> (r: Vec<u8>)
    ensures
        r@ == listen_tcp_literal(),
{
    let mut v: Vec<u8> = Vec::new();
    v.push('-' as u8);
    v.push('-' as u8);
    v.push('l' as u8);
    v.push('i' as u8);
    v.push('s' as u8);
    v.push('t' as u8);
    v.push('e' as u8);
    v.push('n' as u8);
    v.push('-' as u8);
    v.push('t' as u8);
    v.push('c' as u8);
    v.push('p' as u8);
    proof {
        assert(v@ =~= listen_tcp_literal());
    }
    v
}

fn lit_listen_udp() -> (r: Vec<u8>)
    ensures
        r@ == listen_udp_literal(),
{
    let mut v: Vec<u8> = Vec::new();
    v.push('-' as u8);
    v.push('-' as u8);
    v.push('l' as u8);
    v.push('i' as u8);
    v.push('s' as u8);
    v.push('t' as u8);
    v.push('e' as u8);
    v.push('n' as u8);
    v.push('-' as u8);
    v.push('u' as u8);
    v.push('d' as u8);
    v.push('p' as u8);
    proof {
        assert(v@ =~= listen_udp_literal());
    }
    v
}

/// Classifies one command-line token.
pub fn classify_token(t: &Vec<u8>) -> (c: TokenClass)
    ensures
        c == classify_spec(t@),
{
    if t.len() == 0 {
        TokenClass::Empty
    } else if is_short_flag(t, 'h' as u8) || eq_ignore_ascii_case(t, &lit_help()) {
        TokenClass::Help
    } else if is_short_flag(t, 'V' as u8) || eq_ignore_ascii_case(t, &lit_version()) {
        TokenClass::Version
    } else if is_short_flag(t, 'v' as u8) || eq_ignore_ascii_case(t, &lit_verbose()) {
        TokenClass::Verbose
    } else if is_short_flag(t, 's' as u8) || eq_ignore_ascii_case(t, &lit_silent()) {
        TokenClass::Silent
    } else if is_short_flag(t, 't' as u8) || eq_ignore_ascii_case(t, &lit_listen_tcp()) {
        TokenClass::ListenTcp
    } else if is_short_flag(t, 'u' as u8) || eq_ignore_ascii_case(t, &lit_listen_udp()) {
        TokenClass::ListenUdp
    } else {
        TokenClass::Unknown
    }
}

fn is_space(b: u8) -> (r: bool)
    ensures
        r == is_ascii_space(b),
{
    b == 32 || b == 9 || b == 10 || b == 12 || b == 13
}

/// Whether the token disables its protocol (a lone `-`, whitespace aside).
pub fn is_disable(t: &Vec<u8>) -> (r: bool)
    ensures
        r == is_disable_token(t@),
{
    let mut found: bool = false;
    let mut dash_at: usize = 0;
    let mut i: usize = 0;
    while i < t.len()
        invariant
            i <= t@.len(),
            found ==> dash_at < i && t@[dash_at as int] == ('-' as u8) && (forall|j: int|
                0 <= j < i && j != dash_at ==> is_ascii_space(t@[j])),
            !found ==> forall|j: int| 0 <= j < i ==> is_ascii_space(t@[j]),
        decreases t@.len() - i,
    {
        let b = t[i];
        if is_space(b) {
        } else if b == ('-' as u8) && !found {
            found = true;
            dash_at = i;
        } else {
            proof {
                assert(!is_ascii_space(t@[i as int]));
                if is_disable_token(t@) {
                    let c = choose|c: int|
                        0 <= c < t@.len() && t@[c] == ('-' as u8) && (forall|j: int|
                            0 <= j < t@.len() && j != c ==> is_ascii_space(t@[j]));
                    if c == i {
                        assert(found);
                        assert(is_ascii_space(t@[dash_at as int]));
                        assert(false);
                    } else {
                        assert(is_ascii_space(t@[i as int]));
                        assert(false);
                    }
                }
            }
            return false;
        }
        i = i + 1;
    }
    proof {
        if found {
            assert(is_disable_token(t@));
        } else {
            if is_disable_token(t@) {
                let c = choose|c: int|
                    0 <= c < t@.len() && t@[c] == ('-' as u8) && (forall|j: int|
                        0 <= j < t@.len() && j != c ==> is_ascii_space(t@[j]));
                assert(is_ascii_space(t@[c]));
                assert(false);
            }
        }
    }
    found
}

/// The element-for-element copy of a byte vector.
pub fn copy_bytes(v: &Vec<u8>) -> (r: Vec<u8>)
    ensures
        r@ == v@,
{
    let mut r: Vec<u8> = Vec::new();
    let mut i: usize = 0;
    while i < v.len()
        invariant
            i <= v@.len(),
            r@ == v@.take(i as int),
        decreases v@.len() - i,
    {
        let b = v[i];
        r.push(b);
        proof {
            assert(r@ =~= v@.take((i + 1) as int));
        }
        i = i + 1;
    }
    proof {
        assert(v@.take(v@.len() as int) =~= v@);
    }
    r
}

/// The element-for-element copy of an address list.
pub fn copy_addresses(v: &Vec<Address>) -> (r: Vec<Address>)
    ensures
        r@ == v@,
{
    let mut r: Vec<Address> = Vec::new();
    let mut i: usize = 0;
    while i < v.len()
        invariant
            i <= v@.len(),
            r@ == v@.take(i as int),
        decreases v@.len() - i,
    {
        let a = v[i];
        r.push(a);
        proof {
            assert(r@ =~= v@.take((i + 1) as int));
        }
        i = i + 1;
    }
    proof {
        assert(v@.take(v@.len() as int) =~= v@);
    }
    r
}

fn contains_address(v: &Vec<Address>, a: Address) -> (r: bool)
    ensures
        r == v@.contains(a),
{
    let mut i: usize = 0;
    while i < v.len()
        invariant
            i <= v@.len(),
            forall|j: int| 0 <= j < i ==> v@[j] != a,
        decreases v@.len() - i,
    {
        if v[i] == a {
            return true;
        }
        i = i + 1;
    }
    false
}

/// `dst` with each element of `src` appended in order, skipping those
/// already present.
pub open spec fn merge_unique(dst: Seq<Address>, src: Seq<Address>) -> Seq<Address>
    decreases src.len(),
{
    if src.len() == 0 {
        dst
    } else {
        merge_unique(
            if dst.contains(src[0]) {
                dst
            } else {
                dst.push(src[0])
            },
            src.drop_first(),
        )
    }
}

/// Appends to `dst` the addresses of `src` it does not already hold, in
/// order.
pub fn push_unique(dst: &mut Vec<Address>, src: &Vec<Address>)
    ensures
        final(dst)@ == merge_unique(old(dst)@, src@),
{
    let mut i: usize = 0;
    proof {
        assert(src@.skip(0) =~= src@);
    }
    while i < src.len()
        invariant
            i <= src@.len(),
            merge_unique(dst@, src@.skip(i as int)) == merge_unique(old(dst)@, src@),
        decreases src@.len() - i,
    {
        let a = src[i];
        proof {
            let sk = src@.skip(i as int);
            assert(sk[0] == src@[i as int]);
            assert(sk.drop_first() =~= src@.skip((i + 1) as int));
        }
        if !contains_address(dst, a) {
            dst.push(a);
        }
        i = i + 1;
    }
    proof {
        assert(src@.skip(src@.len() as int) =~= Seq::<Address>::empty());
    }
}

/// Merging never introduces a duplicate.
pub proof fn lemma_merge_unique_distinct(dst: Seq<Address>, src: Seq<Address>)
    requires
        crate::server::distinct_addresses(dst),
    ensures
        crate::server::distinct_addresses(merge_unique(dst, src)),
    decreases src.len(),
{
    if src.len() > 0 {
        if dst.contains(src[0]) {
            lemma_merge_unique_distinct(dst, src.drop_first());
        } else {
            let d2 = dst.push(src[0]);
            assert forall|i: int, j: int| 0 <= i < j < d2.len() implies d2[i] != d2[j] by {
                if j == d2.len() - 1 {
                    assert(d2[j] == src[0]);
                    assert(d2[i] == dst[i]);
                    if dst[i] == src[0] {
                        assert(dst.contains(src[0]));
                    }
                }
            }
            lemma_merge_unique_distinct(d2, src.drop_first());
        }
    }
}

/// The wildcard defaults for an unspecified protocol: all IPv6 interfaces,
/// then all IPv4 interfaces, both on the default port.
pub open spec fn default_addresses() -> Seq<Address> {
    seq![
        Address::V6 {
            s0: 0,
            s1: 0,
            s2: 0,
            s3: 0,
            s4: 0,
            s5: 0,
            s6: 0,
            s7: 0,
            port: DEFAULT_PORT,
            flowinfo: 0,
            scope_id: 0,
        },
        Address::V4 { o0: 0, o1: 0, o2: 0, o3: 0, port: DEFAULT_PORT },
    ]
}

/// Appends the two wildcard default addresses.
pub fn push_defaults(dst: &mut Vec<Address>)
    ensures
        final(dst)@ == old(dst)@ + default_addresses(),
{
    dst.push(
        Address::V6 {
            s0: 0,
            s1: 0,
            s2: 0,
            s3: 0,
            s4: 0,
            s5: 0,
            s6: 0,
            s7: 0,
            port: DEFAULT_PORT,
            flowinfo: 0,
            scope_id: 0,
        },
    );
    dst.push(Address::V4 { o0: 0, o1: 0, o2: 0, o3: 0, port: DEFAULT_PORT });
    proof {
        assert(dst@ =~= old(dst)@ + default_addresses());
    }
}

/// Where the parser stands: scanning options, waiting for the address token
/// after a listen flag, or waiting for its driver to resolve an address
/// token (first as given, then with the default port appended).
#[derive(Debug)]
pub enum ParserMode {
    Start,
    Scanning,
    AwaitingAddress(Protocol, Vec<u8>),
    ResolvingFirst(Protocol, Vec<u8>, Vec<u8>),
    ResolvingWithPort(Protocol, Vec<u8>, Vec<u8>),
}

/// What the parser's driver reports to it: the next command-line token (or
/// their end), or the outcome of the resolution the parser asked for — the
/// addresses found, a failure that means "no port in the token" (invalid
/// input), or any other failure.
#[derive(Debug)]
pub enum ParserEvent {
    Token(Vec<u8>),
    End,
    Resolved(Vec<Address>),
    ResolveFailedInvalidInput,
    ResolveFailedOther,
}

/// What the parser asks its driver to do next. `Done` and `Fail` are
/// terminal: the parser is not stepped again after them.
#[derive(Debug, PartialEq, Eq)]
pub enum ParserAction {
    NextToken,
    Resolve(Vec<u8>),
    Done(ArgumentsRequest),
    Fail(ArgumentsError),
}

/// The argument parser: a step machine over command-line tokens and
/// resolution outcomes.
#[derive(Debug)]
pub struct ArgumentParser {
    pub mode: ParserMode,
    pub verbose: bool,
    pub silent: bool,
    pub tcp_specified: bool,
    pub udp_specified: bool,
    pub tcp_addresses: Vec<Address>,
    pub udp_addresses: Vec<Address>,
}

/// Which events a parser in the given mode can be fed.
pub open spec fn event_fits(mode: ParserMode, ev: ParserEvent) -> bool {
    match mode {
        ParserMode::Start | ParserMode::Scanning | ParserMode::AwaitingAddress(..) => ev is Token
            || ev is End,
        ParserMode::ResolvingFirst(..) | ParserMode::ResolvingWithPort(..) => ev is Resolved
            || ev is ResolveFailedInvalidInput || ev is ResolveFailedOther,
    }
}

/// The verbosity flags agree.
pub open spec fn same_verbosity(pre: ArgumentParser, post: ArgumentParser) -> bool {
    post.verbose == pre.verbose && post.silent == pre.silent
}

/// Address lists and the per-protocol "specified" flags agree.
pub open spec fn same_addr_state(pre: ArgumentParser, post: ArgumentParser) -> bool {
    post.tcp_addresses@ == pre.tcp_addresses@ && post.udp_addresses@ == pre.udp_addresses@
        && post.tcp_specified == pre.tcp_specified && post.udp_specified == pre.udp_specified
}

/// `e` is the invalid-address error of protocol `p` for the given flag and
/// address token.
pub open spec fn is_invalid_address_error(
    e: ArgumentsError,
    p: Protocol,
    flag: Seq<u8>,
    tok: Seq<u8>,
) -> bool {
    match p {
        Protocol::Tcp => e matches ArgumentsError::TcpListenError(
            SocketErrorType::InvalidSocketAddress(f, t),
        ) && f@ == flag && t@ == tok,
        Protocol::Udp => e matches ArgumentsError::UdpListenError(
            SocketErrorType::InvalidSocketAddress(f, t),
        ) && f@ == flag && t@ == tok,
    }
}

/// `e` is the unexpected-end error of protocol `p` for the given flag.
pub open spec fn is_unexpected_end_error(e: ArgumentsError, p: Protocol, flag: Seq<u8>) -> bool {
    match p {
        Protocol::Tcp => e matches ArgumentsError::TcpListenError(SocketErrorType::UnexpectedEnd(f))
            && f@ == flag,
        Protocol::Udp => e matches ArgumentsError::UdpListenError(SocketErrorType::UnexpectedEnd(f))
            && f@ == flag,
    }
}

/// The TCP list the configuration ends with: as collected, or the wildcard
/// defaults if `-t` never occurred.
pub open spec fn final_tcp_list(pre: ArgumentParser) -> Seq<Address> {
    if pre.tcp_specified {
        pre.tcp_addresses@
    } else {
        pre.tcp_addresses@ + default_addresses()
    }
}

/// The UDP list the configuration ends with.
pub open spec fn final_udp_list(pre: ArgumentParser) -> Seq<Address> {
    if pre.udp_specified {
        pre.udp_addresses@
    } else {
        pre.udp_addresses@ + default_addresses()
    }
}

/// What stepping on `End` yields: the finished configuration, or the
/// no-sockets error when both protocols ended up with no address.
pub open spec fn end_spec(pre: ArgumentParser, action: ParserAction) -> bool {
    if final_tcp_list(pre).len() == 0 && final_udp_list(pre).len() == 0 {
        action == ParserAction::Fail(ArgumentsError::NoSocketsSpecified)
    } else {
        action matches ParserAction::Done(ArgumentsRequest::Run(sa)) && sa.verbose == pre.verbose
            && sa.silent == pre.silent && sa.tcp_addresses@ == final_tcp_list(pre)
            && sa.udp_addresses@ == final_udp_list(pre)
    }
}

/// What stepping on a token in scanning position yields, by token class.
pub open spec fn scan_token_spec(
    pre: ArgumentParser,
    t: Seq<u8>,
    post: ArgumentParser,
    action: ParserAction,
) -> bool {
    match classify_spec(t) {
        TokenClass::Empty => same_addr_state(pre, post) && same_verbosity(pre, post)
            && post.mode is Scanning && action is NextToken,
        TokenClass::Help => action == ParserAction::Done(ArgumentsRequest::Help),
        TokenClass::Version => action == ParserAction::Done(ArgumentsRequest::Version),
        TokenClass::Verbose => same_addr_state(pre, post) && post.silent == pre.silent
            && post.verbose == true && post.mode is Scanning && action is NextToken,
        TokenClass::Silent => same_addr_state(pre, post) && post.verbose == pre.verbose
            && post.silent == true && post.mode is Scanning && action is NextToken,
        TokenClass::ListenTcp => same_verbosity(pre, post) && post.tcp_addresses@
            == pre.tcp_addresses@ && post.udp_addresses@ == pre.udp_addresses@
            && post.udp_specified == pre.udp_specified && post.tcp_specified == true && (
        post.mode matches ParserMode::AwaitingAddress(p, f) && p is Tcp && f@ == t)
            && action is NextToken,
        TokenClass::ListenUdp => same_verbosity(pre, post) && post.tcp_addresses@
            == pre.tcp_addresses@ && post.udp_addresses@ == pre.udp_addresses@
            && post.tcp_specified == pre.tcp_specified && post.udp_specified == true && (
        post.mode matches ParserMode::AwaitingAddress(p, f) && p is Udp && f@ == t)
            && action is NextToken,
        TokenClass::Unknown => action matches ParserAction::Fail(
            ArgumentsError::UnknownArgument(u),
        ) && u@ == t,
    }
}

/// What a resolution success yields: the found addresses merged, without
/// duplicates, into the list of protocol `p`; scanning resumes.
pub open spec fn merge_spec(
    pre: ArgumentParser,
    p: Protocol,
    addrs: Seq<Address>,
    post: ArgumentParser,
    action: ParserAction,
) -> bool {
    same_verbosity(pre, post) && post.tcp_specified == pre.tcp_specified && post.udp_specified
        == pre.udp_specified && post.mode is Scanning && action is NextToken && (match p {
        Protocol::Tcp => post.tcp_addresses@ == merge_unique(pre.tcp_addresses@, addrs)
            && post.udp_addresses@ == pre.udp_addresses@,
        Protocol::Udp => post.udp_addresses@ == merge_unique(pre.udp_addresses@, addrs)
            && post.tcp_addresses@ == pre.tcp_addresses@,
    })
}

/// The full transition relation of the parser, one case per mode and event.
/// After a terminal action (`Done`, `Fail`) the parser state is dead and the
/// relation does not constrain it.
pub open spec fn parser_step_spec(
    pre: ArgumentParser,
    ev: ParserEvent,
    post: ArgumentParser,
    action: ParserAction,
) -> bool {
    match pre.mode {
        ParserMode::Start => match ev {
            ParserEvent::Token(_) => same_addr_state(pre, post) && same_verbosity(pre, post)
                && post.mode is Scanning && action is NextToken,
            ParserEvent::End => end_spec(pre, action),
            _ => false,
        },
        ParserMode::Scanning => match ev {
            ParserEvent::Token(t) => scan_token_spec(pre, t@, post, action),
            ParserEvent::End => end_spec(pre, action),
            _ => false,
        },
        ParserMode::AwaitingAddress(p, flag) => match ev {
            ParserEvent::Token(t) => if is_disable_token(t@) {
                same_addr_state(pre, post) && same_verbosity(pre, post) && post.mode is Scanning
                    && action is NextToken
            } else {
                same_addr_state(pre, post) && same_verbosity(pre, post) && (
                post.mode matches ParserMode::ResolvingFirst(p2, f2, t2) && p2 == p && f2@ == flag@
                    && t2@ == t@) && (action matches ParserAction::Resolve(r) && r@ == t@)
            },
            ParserEvent::End => action matches ParserAction::Fail(e) && is_unexpected_end_error(
                e,
                p,
                flag@,
            ),
            _ => false,
        },
        ParserMode::ResolvingFirst(p, flag, tok) => match ev {
            ParserEvent::Resolved(addrs) => merge_spec(pre, p, addrs@, post, action),
            ParserEvent::ResolveFailedInvalidInput => same_addr_state(pre, post) && same_verbosity(
                pre,
                post,
            ) && (post.mode matches ParserMode::ResolvingWithPort(p2, f2, t2) && p2 == p && f2@
                == flag@ && t2@ == tok@) && (action matches ParserAction::Resolve(r) && r@ == tok@
                + port_suffix()),
            ParserEvent::ResolveFailedOther => action matches ParserAction::Fail(e)
                && is_invalid_address_error(e, p, flag@, tok@),
            _ => false,
        },
        ParserMode::ResolvingWithPort(p, flag, tok) => match ev {
            ParserEvent::Resolved(addrs) => merge_spec(pre, p, addrs@, post, action),
            ParserEvent::ResolveFailedInvalidInput => action matches ParserAction::Fail(e)
                && is_invalid_address_error(e, p, flag@, tok@),
            ParserEvent::ResolveFailedOther => action matches ParserAction::Fail(e)
                && is_invalid_address_error(e, p, flag@, tok@),
            _ => false,
        },
    }
}

impl ArgumentParser {
    /// The protocol the parser is currently collecting an address for, if
    /// it stands between a listen flag and the merge of its addresses.
    pub open spec fn pending_protocol(self) -> Option<Protocol> {
        match self.mode {
            ParserMode::AwaitingAddress(p, _) => Some(p),
            ParserMode::ResolvingFirst(p, _, _) => Some(p),
            ParserMode::ResolvingWithPort(p, _, _) => Some(p),
            _ => None,
        }
    }

    /// The parser's internal invariant: the collected lists hold no
    /// duplicate, a protocol never listed before its flag occurred, and a
    /// pending address belongs to a protocol whose flag did occur.
    pub open spec fn inv(self) -> bool {
        crate::server::distinct_addresses(self.tcp_addresses@) && crate::server::distinct_addresses(
            self.udp_addresses@,
        ) && (!self.tcp_specified ==> self.tcp_addresses@.len() == 0) && (!self.udp_specified
            ==> self.udp_addresses@.len() == 0) && (match self.pending_protocol() {
            Some(Protocol::Tcp) => self.tcp_specified,
            Some(Protocol::Udp) => self.udp_specified,
            None => true,
        })
    }

    /// A parser ready for the first token (the program name, which is
    /// discarded by convention).
    pub fn new() -> (p: ArgumentParser)
        ensures
            p.inv(),
            p.mode is Start,
            p.verbose == false,
            p.silent == false,
            p.tcp_specified == false,
            p.udp_specified == false,
            p.tcp_addresses@.len() == 0,
            p.udp_addresses@.len() == 0,
    {
        ArgumentParser {
            mode: ParserMode::Start,
            verbose: false,
            silent: false,
            tcp_specified: false,
            udp_specified: false,
            tcp_addresses: Vec::new(),
            udp_addresses: Vec::new(),
        }
    }

    fn finish_end(&self) -> (action: ParserAction)
        requires
            self.inv(),
        ensures
            end_spec(*self, action),
            action matches ParserAction::Done(ArgumentsRequest::Run(sa))
                ==> crate::server::distinct_addresses(sa.tcp_addresses@)
                && crate::server::distinct_addresses(sa.udp_addresses@),
    {
        let mut tcp_final = copy_addresses(&self.tcp_addresses);
        if !self.tcp_specified {
            push_defaults(&mut tcp_final);
            proof {
                assert(tcp_final@ =~= default_addresses());
            }
        }
        let mut udp_final = copy_addresses(&self.udp_addresses);
        if !self.udp_specified {
            push_defaults(&mut udp_final);
            proof {
                assert(udp_final@ =~= default_addresses());
            }
        }
        proof {
            assert(crate::server::distinct_addresses(default_addresses()));
            assert(crate::server::distinct_addresses(tcp_final@));
            assert(crate::server::distinct_addresses(udp_final@));
        }
        if tcp_final.len() == 0 && udp_final.len() == 0 {
            ParserAction::Fail(ArgumentsError::NoSocketsSpecified)
        } else {
            ParserAction::Done(
                ArgumentsRequest::Run(
                    StartupArguments {
                        verbose: self.verbose,
                        silent: self.silent,
                        tcp_addresses: tcp_final,
                        udp_addresses: udp_final,
                    },
                ),
            )
        }
    }

    /// One step of the parser: consumes the event and says what to do next.
    /// The configured lists it builds never hold a duplicate address.
    pub fn parser_step(&mut self, ev: ParserEvent) -> (action: ParserAction)
        requires
            old(self).inv(),
            event_fits(old(self).mode, ev),
        ensures
            parser_step_spec(*old(self), ev, *final(self), action),
            final(self).inv(),
            action matches ParserAction::Done(ArgumentsRequest::Run(sa))
                ==> crate::server::distinct_addresses(sa.tcp_addresses@)
                && crate::server::distinct_addresses(sa.udp_addresses@),
    {
        let mut m = ParserMode::Scanning;
        core::mem::swap(&mut m, &mut self.mode);
        match (m, ev) {
            (ParserMode::Start, ParserEvent::Token(_t)) => ParserAction::NextToken,
            (ParserMode::Start, ParserEvent::End) => self.finish_end(),
            (ParserMode::Scanning, ParserEvent::Token(t)) => {
                match classify_token(&t) {
                    TokenClass::Empty => ParserAction::NextToken,
                    TokenClass::Help => ParserAction::Done(ArgumentsRequest::Help),
                    TokenClass::Version => ParserAction::Done(ArgumentsRequest::Version),
                    TokenClass::Verbose => {
                        self.verbose = true;
                        ParserAction::NextToken
                    },
                    TokenClass::Silent => {
                        self.silent = true;
                        ParserAction::NextToken
                    },
                    TokenClass::ListenTcp => {
                        self.tcp_specified = true;
                        self.mode = ParserMode::AwaitingAddress(Protocol::Tcp, t);
                        ParserAction::NextToken
                    },
                    TokenClass::ListenUdp => {
                        self.udp_specified = true;
                        self.mode = ParserMode::AwaitingAddress(Protocol::Udp, t);
                        ParserAction::NextToken
                    },
                    TokenClass::Unknown => ParserAction::Fail(ArgumentsError::UnknownArgument(t)),
                }
            },
            (ParserMode::Scanning, ParserEvent::End) => self.finish_end(),
            (ParserMode::AwaitingAddress(p, flag), ParserEvent::Token(t)) => {
                if is_disable(&t) {
                    ParserAction::NextToken
                } else {
                    let out = copy_bytes(&t);
                    self.mode = ParserMode::ResolvingFirst(p, flag, t);
                    ParserAction::Resolve(out)
                }
            },
            (ParserMode::AwaitingAddress(p, flag), ParserEvent::End) => ParserAction::Fail(
                make_listen_error(p, SocketErrorType::UnexpectedEnd(flag)),
            ),
            (ParserMode::ResolvingFirst(p, _flag, _tok), ParserEvent::Resolved(addrs)) => {
                match p {
                    Protocol::Tcp => {
                        push_unique(&mut self.tcp_addresses, &addrs);
                        proof {
                            lemma_merge_unique_distinct(old(self).tcp_addresses@, addrs@);
                        }
                    },
                    Protocol::Udp => {
                        push_unique(&mut self.udp_addresses, &addrs);
                        proof {
                            lemma_merge_unique_distinct(old(self).udp_addresses@, addrs@);
                        }
                    },
                }
                ParserAction::NextToken
            },
            (
                ParserMode::ResolvingFirst(p, flag, tok),
                ParserEvent::ResolveFailedInvalidInput,
            ) => {
                let mut retry = copy_bytes(&tok);
                retry.push(':' as u8);
                retry.push('6' as u8);
                retry.push('9' as u8);
                retry.push('6' as u8);
                retry.push('9' as u8);
                proof {
                    assert(retry@ =~= tok@ + port_suffix());
                }
                self.mode = ParserMode::ResolvingWithPort(p, flag, tok);
                ParserAction::Resolve(retry)
            },
            (ParserMode::ResolvingFirst(p, flag, tok), ParserEvent::ResolveFailedOther) => {
                ParserAction::Fail(
                    make_listen_error(p, SocketErrorType::InvalidSocketAddress(flag, tok)),
                )
            },
            (ParserMode::ResolvingWithPort(p, _flag, _tok), ParserEvent::Resolved(addrs)) => {
                match p {
                    Protocol::Tcp => {
                        push_unique(&mut self.tcp_addresses, &addrs);
                        proof {
                            lemma_merge_unique_distinct(old(self).tcp_addresses@, addrs@);
                        }
                    },
                    Protocol::Udp => {
                        push_unique(&mut self.udp_addresses, &addrs);
                        proof {
                            lemma_merge_unique_distinct(old(self).udp_addresses@, addrs@);
                        }
                    },
                }
                ParserAction::NextToken
            },
            (
                ParserMode::ResolvingWithPort(p, flag, tok),
                ParserEvent::ResolveFailedInvalidInput,
            ) => {
                ParserAction::Fail(
                    make_listen_error(p, SocketErrorType::InvalidSocketAddress(flag, tok)),
                )
            },
            (ParserMode::ResolvingWithPort(p, flag, tok), ParserEvent::ResolveFailedOther) => {
                ParserAction::Fail(
                    make_listen_error(p, SocketErrorType::InvalidSocketAddress(flag, tok)),
                )
            },
            (_, _) => {
                proof {
                    assert(false);
                }
                vstd::pervasive::unreached()
            },
        }
    }
}

} // verus!
