use whereyoufrom::addr::Address;
use whereyoufrom::server::udp_response;
use whereyoufrom::args::{
    classify_token, get_help_string, is_disable, ArgumentParser, ArgumentsError,
    ArgumentsRequest, ParserAction, ParserEvent, SocketErrorType, StartupArguments, TokenClass,
    DEFAULT_PORT,
};

fn bytes(s: &str) -> Vec<u8> {
    s.as_bytes().to_vec()
}

fn v4(o0: u8, o1: u8, o2: u8, o3: u8, port: u16) -> Address {
    Address::V4 { o0, o1, o2, o3, port }
}

fn wildcard_v6() -> Address {
    Address::V6 {
        s0: 0,
        s1: 0,
        s2: 0,
        s3: 0,
        s4: 0,
        s5: 0,
        s6: 0,
        s7: 0,
        port: DEFAULT_PORT,
        flowinfo: 0,
        scope_id: 0,
    }
}

fn wildcard_v4() -> Address {
    v4(0, 0, 0, 0, DEFAULT_PORT)
}

/// Drives the parser over a token list that needs no address resolution.
fn drive(tokens: &[&str]) -> ParserAction {
    let mut p = ArgumentParser::new();
    let mut i: usize = 0;
    loop {
        let ev = if i < tokens.len() {
            ParserEvent::Token(bytes(tokens[i]))
        } else {
            ParserEvent::End
        };
        i += 1;
        match p.parser_step(ev) {
            ParserAction::NextToken => continue,
            other => return other,
        }
    }
}

fn expect_run(action: ParserAction) -> StartupArguments {
    match action {
        ParserAction::Done(ArgumentsRequest::Run(sa)) => sa,
        other => panic!("expected a run configuration, got {:?}", other),
    }
}

#[test]
fn no_arguments_gives_wildcard_defaults() {
    let sa = expect_run(drive(&["whereyoufrom"]));
    assert!(!sa.verbose && !sa.silent);
    assert_eq!(sa.tcp_addresses, vec![wildcard_v6(), wildcard_v4()]);
    assert_eq!(sa.udp_addresses, vec![wildcard_v6(), wildcard_v4()]);
}

#[test]
fn tcp_disabled_keeps_udp_defaults() {
    let sa = expect_run(drive(&["whereyoufrom", "-t", "-"]));
    assert!(sa.tcp_addresses.is_empty());
    assert_eq!(sa.udp_addresses, vec![wildcard_v6(), wildcard_v4()]);
}

#[test]
fn ping_with_tcp_disabled_and_udp_default() {
    // `-t -` disables TCP while UDP keeps its wildcard defaults; a 4-byte
    // "ping" datagram from 203.0.113.5:40000 then earns this exact reply.
    let sa = expect_run(drive(&["whereyoufrom", "-t", "-"]));
    assert!(sa.tcp_addresses.is_empty());
    assert_eq!(sa.udp_addresses, vec![wildcard_v6(), wildcard_v4()]);
    let reply = udp_response(&v4(203, 0, 113, 5, 40000), 4, 1);
    assert_eq!(reply, b"you: 203.0.113.5:40000 | bytes: 4 | packet_number: 1".to_vec());
}

#[test]
fn disabling_both_protocols_is_an_error() {
    assert_eq!(
        drive(&["whereyoufrom", "-t", "-", "-u", "-"]),
        ParserAction::Fail(ArgumentsError::NoSocketsSpecified)
    );
}

#[test]
fn help_and_version_requests() {
    assert_eq!(drive(&["whereyoufrom", "-h"]), ParserAction::Done(ArgumentsRequest::Help));
    assert_eq!(
        drive(&["whereyoufrom", "--HeLp"]),
        ParserAction::Done(ArgumentsRequest::Help)
    );
    assert_eq!(drive(&["whereyoufrom", "-V"]), ParserAction::Done(ArgumentsRequest::Version));
    // Help wins over anything after it.
    assert_eq!(
        drive(&["whereyoufrom", "-v", "-h", "-x"]),
        ParserAction::Done(ArgumentsRequest::Help)
    );
}

#[test]
fn verbosity_flags_are_recorded() {
    let sa = expect_run(drive(&["whereyoufrom", "-v"]));
    assert!(sa.verbose && !sa.silent);
    let sa = expect_run(drive(&["whereyoufrom", "--SILENT"]));
    assert!(!sa.verbose && sa.silent);
}

#[test]
fn empty_tokens_are_skipped() {
    let sa = expect_run(drive(&["whereyoufrom", "", ""]));
    assert_eq!(sa.tcp_addresses.len(), 2);
}

#[test]
fn unknown_argument_is_reported() {
    assert_eq!(
        drive(&["whereyoufrom", "-x"]),
        ParserAction::Fail(ArgumentsError::UnknownArgument(bytes("-x")))
    );
    // Short flags match exactly: an uppercase -T is not -t.
    assert_eq!(
        drive(&["whereyoufrom", "-T"]),
        ParserAction::Fail(ArgumentsError::UnknownArgument(bytes("-T")))
    );
}

#[test]
fn listen_flag_without_address_is_an_error() {
    assert_eq!(
        drive(&["whereyoufrom", "-t"]),
        ParserAction::Fail(ArgumentsError::TcpListenError(SocketErrorType::UnexpectedEnd(
            bytes("-t")
        )))
    );
    assert_eq!(
        drive(&["whereyoufrom", "--listen-udp"]),
        ParserAction::Fail(ArgumentsError::UdpListenError(SocketErrorType::UnexpectedEnd(
            bytes("--listen-udp")
        )))
    );
}

#[test]
fn address_token_is_resolved_with_port_retry() {
    let mut p = ArgumentParser::new();
    assert_eq!(p.parser_step(ParserEvent::Token(bytes("whereyoufrom"))), ParserAction::NextToken);
    assert_eq!(p.parser_step(ParserEvent::Token(bytes("-t"))), ParserAction::NextToken);
    assert_eq!(
        p.parser_step(ParserEvent::Token(bytes("example.com"))),
        ParserAction::Resolve(bytes("example.com"))
    );
    // No port in the token: the parser asks again with the default appended.
    assert_eq!(
        p.parser_step(ParserEvent::ResolveFailedInvalidInput),
        ParserAction::Resolve(bytes("example.com:6969"))
    );
    let addr = v4(93, 184, 216, 34, DEFAULT_PORT);
    assert_eq!(p.parser_step(ParserEvent::Resolved(vec![addr])), ParserAction::NextToken);
    let sa = expect_run(p.parser_step(ParserEvent::End));
    assert_eq!(sa.tcp_addresses, vec![addr]);
    assert_eq!(sa.udp_addresses, vec![wildcard_v6(), wildcard_v4()]);
}

#[test]
fn resolution_failure_is_reported_with_flag_and_token() {
    let mut p = ArgumentParser::new();
    p.parser_step(ParserEvent::Token(bytes("whereyoufrom")));
    p.parser_step(ParserEvent::Token(bytes("-u")));
    assert_eq!(
        p.parser_step(ParserEvent::Token(bytes("bad^addr"))),
        ParserAction::Resolve(bytes("bad^addr"))
    );
    assert_eq!(
        p.parser_step(ParserEvent::ResolveFailedOther),
        ParserAction::Fail(ArgumentsError::UdpListenError(
            SocketErrorType::InvalidSocketAddress(bytes("-u"), bytes("bad^addr"))
        ))
    );
}

#[test]
fn second_resolution_failure_is_fatal() {
    let mut p = ArgumentParser::new();
    p.parser_step(ParserEvent::Token(bytes("whereyoufrom")));
    p.parser_step(ParserEvent::Token(bytes("-t")));
    p.parser_step(ParserEvent::Token(bytes("nowhere")));
    p.parser_step(ParserEvent::ResolveFailedInvalidInput);
    assert_eq!(
        p.parser_step(ParserEvent::ResolveFailedInvalidInput),
        ParserAction::Fail(ArgumentsError::TcpListenError(
            SocketErrorType::InvalidSocketAddress(bytes("-t"), bytes("nowhere"))
        ))
    );
}

#[test]
fn resolved_addresses_are_deduplicated() {
    let a1 = v4(192, 168, 1, 105, 1234);
    let a2 = v4(10, 0, 0, 7, 1234);
    let a3 = v4(10, 0, 0, 8, 1234);
    let mut p = ArgumentParser::new();
    p.parser_step(ParserEvent::Token(bytes("whereyoufrom")));
    p.parser_step(ParserEvent::Token(bytes("-t")));
    p.parser_step(ParserEvent::Token(bytes("one")));
    p.parser_step(ParserEvent::Resolved(vec![a1, a2, a1]));
    p.parser_step(ParserEvent::Token(bytes("-t")));
    p.parser_step(ParserEvent::Token(bytes("two")));
    p.parser_step(ParserEvent::Resolved(vec![a2, a3]));
    let sa = expect_run(p.parser_step(ParserEvent::End));
    assert_eq!(sa.tcp_addresses, vec![a1, a2, a3]);
}

#[test]
fn classify_token_cases() {
    assert_eq!(classify_token(&bytes("")), TokenClass::Empty);
    assert_eq!(classify_token(&bytes("-h")), TokenClass::Help);
    assert_eq!(classify_token(&bytes("--Version")), TokenClass::Version);
    assert_eq!(classify_token(&bytes("-v")), TokenClass::Verbose);
    assert_eq!(classify_token(&bytes("-s")), TokenClass::Silent);
    assert_eq!(classify_token(&bytes("--listen-TCP")), TokenClass::ListenTcp);
    assert_eq!(classify_token(&bytes("-u")), TokenClass::ListenUdp);
    assert_eq!(classify_token(&bytes("--verbose=1")), TokenClass::Unknown);
}

#[test]
fn disable_token_allows_surrounding_whitespace() {
    assert!(is_disable(&bytes("-")));
    assert!(is_disable(&bytes(" - ")));
    assert!(is_disable(&bytes("\t-\r\n")));
    assert!(!is_disable(&bytes("")));
    assert!(!is_disable(&bytes("--")));
    assert!(!is_disable(&bytes("a-")));
    assert!(!is_disable(&bytes("- -")));
}

#[test]
fn empty_configuration_has_nothing_set() {
    let sa = StartupArguments::empty();
    assert!(!sa.verbose && !sa.silent);
    assert!(sa.tcp_addresses.is_empty() && sa.udp_addresses.is_empty());
}

#[test]
fn help_text_names_the_options() {
    let h = get_help_string();
    assert!(h.starts_with("Usage: whereyoufrom"));
    assert!(h.contains("--listen-tcp"));
    assert!(h.contains("--listen-udp"));
    assert!(h.contains("6969"));
}
