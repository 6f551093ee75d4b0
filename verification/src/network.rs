//! What becomes of the game's requests over WinHTTP, its name lookups and its certificate checks.

use vstd::prelude::*;
use vstd::slice::*;
use vstd::string::*;
use vstd::utf8::*;

use crate::config::{get, ClientConfig};
use crate::encoding::{
    ansi_host, lossy_text, read_wide_string, strings_end_at_the_first_nul,
    texts_without_nul_have_no_zero_unit, utf16_round_trip, utf16_text, utf16_units, utf8_text,
    wide_complete, wide_host, wide_len, wide_text,
};
use crate::host::{
    is_official_sdk_host, is_official_sdk_url, official_host, should_accept_private_cn_mismatch,
    url_host, CERT_E_CN_NO_MATCH,
};
use crate::text::{append_decimal, decimal};

verus! {

/// The most code units that are read of a URL.
pub const MAX_URL_UNITS: usize = 2048;

/// The most code units that are read of a host name.
pub const MAX_HOST_UNITS: usize = 512;

/// The policy under which the certificate of a TLS connection is checked.
pub const CERT_CHAIN_POLICY_SSL: usize = 4;

/// The role of the certificate of a server.
pub const AUTHTYPE_SERVER: u32 = 2;

// The private host, as it is handed to the system.

/// Why the private host cannot be set up.
#[derive(Clone, Copy, Debug, PartialEq, Eq, Structural)]
pub enum NetworkError {
    ConfigUnavailable,
    /// The host holds a NUL, at this place.
    NulInHost(usize),
    HostTaken,
}

impl NetworkError {
    /// The error in words.
    pub open spec fn words(self) -> Seq<char> {
        match self {
            NetworkError::ConfigUnavailable => "client configuration unavailable"@,
            NetworkError::NulInHost(at) => "nul byte found in provided data at position: "@
                + decimal(at as nat),
            NetworkError::HostTaken => "TLS host was already initialized"@,
        }
    }

    pub fn message(&self) -> (text: String)
        ensures
            text@ == self.words(),
    {
        match self {
            NetworkError::ConfigUnavailable => "client configuration unavailable".to_owned(),
            NetworkError::NulInHost(at) => {
                let mut text = "nul byte found in provided data at position: ".to_owned();
                append_decimal(&mut text, *at as u128);
                text
            },
            NetworkError::HostTaken => "TLS host was already initialized".to_owned(),
        }
    }
}

/// The private host, as bytes and as code units, each with a NUL behind them.
pub struct HostNames {
    ansi: Vec<u8>,
    wide: Vec<u16>,
    host: Ghost<Seq<char>>,
}

impl HostNames {
    /// The host.
    pub closed spec fn host(&self) -> Seq<char> {
        self.host@
    }

    #[verifier::type_invariant]
    spec fn hold_host(&self) -> bool {
        &&& self.ansi@ == encode_utf8(self.host@).push(0)
        &&& self.wide@ == utf16_units(self.host@).push(0)
    }

    /// The bytes of the host, with a NUL behind them.
    pub fn ansi(&self) -> (bytes: &Vec<u8>)
        ensures
            bytes@ == encode_utf8(self.host()).push(0),
    {
        proof {
            use_type_invariant(self);
        }
        &self.ansi
    }

    /// The code units of the host, with a NUL behind them.
    pub fn wide(&self) -> (units: &Vec<u16>)
        ensures
            units@ == utf16_units(self.host()).push(0),
    {
        proof {
            use_type_invariant(self);
        }
        &self.wide
    }

    /// The host, read back from its bytes.
    fn ansi_text(&self) -> (text: String)
        ensures
            text@ == self.host(),
    {
        proof {
            use_type_invariant(self);
            encode_utf8_valid_utf8(self.host());
            encode_utf8_decode_utf8(self.host());
            assert(self.ansi@.drop_last() == encode_utf8(self.host()));
        }
        lossy_text(slice_subrange(self.ansi.as_slice(), 0, self.ansi.len() - 1))
    }

    /// The host, read back from its code units.
    fn wide_text(&self) -> (text: String)
        ensures
            text@ == self.host(),
    {
        proof {
            use_type_invariant(self);
            utf16_round_trip(self.host());
            assert(self.wide@.drop_last() == utf16_units(self.host()));
        }
        wide_text(slice_subrange(self.wide.as_slice(), 0, self.wide.len() - 1))
    }
}

/// Makes the private host ready to be handed out, once.
pub fn set_host(loaded: &Result<ClientConfig, String>, taken: bool) -> (names: Result<
    HostNames,
    NetworkError,
>)
    ensures
        match loaded {
            Err(_) => names == Err::<HostNames, NetworkError>(NetworkError::ConfigUnavailable),
            Ok(config) => if encode_utf8(config.tls.host@).contains(0) {
                &&& names matches Err(NetworkError::NulInHost(at))
                &&& at < encode_utf8(config.tls.host@).len()
                &&& encode_utf8(config.tls.host@)[at as int] == 0
                &&& !encode_utf8(config.tls.host@).take(at as int).contains(0)
            } else if taken {
                names == Err::<HostNames, NetworkError>(NetworkError::HostTaken)
            } else {
                names matches Ok(names) && names.host() == config.tls.host@
            },
        },
{
    let config = match get(loaded) {
        Ok(config) => config,
        Err(_) => return Err(NetworkError::ConfigUnavailable),
    };
    let host = config.tls.host.as_str();
    match ansi_host(host) {
        Err(at) => Err(NetworkError::NulInHost(at)),
        Ok(ansi) => if taken {
            Err(NetworkError::HostTaken)
        } else {
            Ok(HostNames { ansi, wide: wide_host(host), host: Ghost(host@) })
        },
    }
}

// Proxy settings.

/// The proxy settings of the current user: a flag, and the addresses of three strings.
#[derive(Clone, Copy, Debug, PartialEq, Eq, Structural)]
pub struct CurrentUserIeProxyConfig {
    pub auto_detect: i32,
    pub auto_config_url: usize,
    pub proxy: usize,
    pub proxy_bypass: usize,
}

/// How a request goes out: an access type, and the addresses of two strings.
#[derive(Clone, Copy, Debug, PartialEq, Eq, Structural)]
pub struct WinHttpProxyInfo {
    pub access_type: u32,
    pub proxy: usize,
    pub proxy_bypass: usize,
}

/// An answer that is given in place of the system.
pub struct Answer<T> {
    pub result: usize,
    /// What is written where the caller wants it.
    pub written: Option<T>,
    pub event: Option<String>,
}

/// Answers that the user has no proxy, if there is a place for the answer.
pub fn on_get_ie_proxy_config(wanted: bool) -> (answer: Answer<CurrentUserIeProxyConfig>)
    ensures
        if wanted {
            &&& answer.result == 1
            &&& answer.written == Some(
                (CurrentUserIeProxyConfig {
                    auto_detect: 0,
                    auto_config_url: 0,
                    proxy: 0,
                    proxy_bypass: 0,
                }),
            )
            &&& answer.event matches Some(text)
            &&& text@ == "process-local IE proxy bypass returned to game; system proxy unchanged"@
        } else {
            answer.result == 0 && answer.written is None && answer.event is None
        },
{
    if !wanted {
        return Answer { result: 0, written: None, event: None };
    }
    Answer {
        result: 1,
        written: Some(
            CurrentUserIeProxyConfig {
                auto_detect: 0,
                auto_config_url: 0,
                proxy: 0,
                proxy_bypass: 0,
            },
        ),
        event: Some(
            "process-local IE proxy bypass returned to game; system proxy unchanged".to_owned(),
        ),
    }
}

/// What is read of a wide string: its text, unless it is too long.
pub open spec fn read_text(units: Option<Seq<u16>>, max_units: int) -> Option<Seq<char>> {
    match units {
        Some(units) => if wide_len(units) < max_units {
            Some(utf16_text(units.take(wide_len(units))))
        } else {
            None
        },
        None => None,
    }
}

/// The code units of a wide string, if there is one.
pub open spec fn units_of(units: Option<&[u16]>) -> Option<Seq<u16>> {
    match units {
        Some(units) => Some(units@),
        None => None,
    }
}

fn read_name(units: Option<&[u16]>, max_units: usize) -> (name: Option<String>)
    requires
        units matches Some(units) ==> wide_complete(units@, max_units as int),
    ensures
        match read_text(units_of(units), max_units as int) {
            Some(text) => name matches Some(name) && name@ == text,
            None => name is None,
        },
{
    match units {
        Some(units) => read_wide_string(units, max_units),
        None => None,
    }
}

/// Whether the URL of a request is looked at: where the caller gives one, and a place for the
/// answer.
pub fn reads_url(url_given: bool, place_given: bool) -> (reads: bool)
    ensures
        reads == (url_given && place_given),
{
    url_given && place_given
}

/// Answers that a request to an official host goes out directly, and leaves every other to the
/// system. There is a `url` where it is looked at.
pub fn on_get_proxy_for_url(url: Option<&[u16]>) -> (answer: Option<Answer<WinHttpProxyInfo>>)
    requires
        url matches Some(units) ==> wide_complete(units@, MAX_URL_UNITS as int),
    ensures
        match read_text(units_of(url), MAX_URL_UNITS as int) {
            Some(text) if official_host(url_host(text)) => {
                &&& answer matches Some(answer)
                &&& answer.result == 1
                &&& answer.written == Some(
                    (WinHttpProxyInfo { access_type: 1, proxy: 0, proxy_bypass: 0 }),
                )
                &&& answer.event matches Some(event)
                &&& event@ == "process-local direct route selected for SDK URL "@ + text
            },
            _ => answer is None,
        },
{
    match read_name(url, MAX_URL_UNITS) {
        Some(text) => if is_official_sdk_url(text.as_str()) {
            let mut event = "process-local direct route selected for SDK URL ".to_owned();
            event.append(text.as_str());
            Some(
                Answer {
                    result: 1,
                    written: Some(WinHttpProxyInfo { access_type: 1, proxy: 0, proxy_bypass: 0 }),
                    event: Some(event),
                },
            )
        } else {
            None
        },
        None => None,
    }
}

// Connections over WinHTTP.

/// A connection over WinHTTP that goes to the private host instead.
pub struct WinHttpRedirect<'a> {
    /// The code units of the host, with a NUL behind them.
    pub host: &'a Vec<u16>,
    /// The port, as it is handed over in a register.
    pub port: u64,
    pub event: String,
}

/// The low sixteen bits of a register.
pub open spec fn low_bits(register: u64) -> u16 {
    (register % 0x1_0000) as u16
}

/// Sends a connection to an official host to the private one; `port` is the register that holds
/// the port, and there are `names` once the private host is set up.
pub fn on_winhttp_connect<'a>(
    host: Option<&[u16]>,
    port: u64,
    loaded: &Result<ClientConfig, String>,
    names: Option<&'a HostNames>,
) -> (redirect: Option<WinHttpRedirect<'a>>)
    requires
        host matches Some(units) ==> wide_complete(units@, MAX_HOST_UNITS as int),
    ensures
        match (read_text(units_of(host), MAX_HOST_UNITS as int), *loaded, names) {
            (Some(text), Ok(config), Some(names)) if official_host(text) => {
                &&& redirect matches Some(redirect)
                &&& redirect.host@ == utf16_units(names.host()).push(0)
                &&& redirect.port == config.tls.port
                &&& redirect.event@ == "sdk WinHTTP redirect "@ + text + ":"@ + decimal(
                    low_bits(port) as nat,
                ) + " -> "@ + config.tls.host@ + ":"@ + decimal(config.tls.port as nat)
            },
            _ => redirect is None,
        },
{
    let text = match read_name(host, MAX_HOST_UNITS) {
        Some(text) => text,
        None => return None,
    };
    if !is_official_sdk_host(text.as_str()) {
        return None;
    }
    let config = match get(loaded) {
        Ok(config) => config,
        Err(_) => return None,
    };
    let names = match names {
        Some(names) => names,
        None => return None,
    };
    let mut event = "sdk WinHTTP redirect ".to_owned();
    event.append(text.as_str());
    event.append(":");
    append_decimal(&mut event, (port % 0x1_0000) as u128);
    event.append(" -> ");
    event.append(config.tls.host.as_str());
    event.append(":");
    append_decimal(&mut event, config.tls.port as u128);
    Some(WinHttpRedirect { host: names.wide(), port: config.tls.port as u64, event })
}

// Name lookups.

/// A lookup that is for the private host instead.
pub struct LookupRedirect<'a> {
    /// The bytes of the host, with a NUL behind them.
    pub host: &'a Vec<u8>,
    pub event: String,
}

/// Makes a lookup of an official host one of the private host; `node` is the name before its NUL,
/// and there are `names` once the private host is set up.
pub fn on_getaddrinfo<'a>(node: Option<&[u8]>, names: Option<&'a HostNames>) -> (redirect: Option<
    LookupRedirect<'a>,
>)
    ensures
        match (node, names) {
            (Some(node), Some(names)) if valid_utf8(node@) && official_host(decode_utf8(node@)) => {
                &&& redirect matches Some(redirect)
                &&& redirect.host@ == encode_utf8(names.host()).push(0)
                &&& redirect.event@ == "sdk dns rewrite "@ + decode_utf8(node@) + " -> "@
                    + names.host()
            },
            _ => redirect is None,
        },
{
    let node = match node {
        Some(node) => node,
        None => return None,
    };
    let host = match utf8_text(slice_to_vec(node)) {
        Some(host) => host,
        None => return None,
    };
    if !is_official_sdk_host(host.as_str()) {
        return None;
    }
    match names {
        Some(names) => {
            let mut event = "sdk dns rewrite ".to_owned();
            event.append(host.as_str());
            event.append(" -> ");
            event.append(names.ansi_text().as_str());
            Some(LookupRedirect { host: names.ansi(), event })
        },
        None => None,
    }
}

// Certificate checks.

/// Whether the parameters of a certificate check, if they are `given`, are looked at: those of a
/// check for TLS.
pub fn reads_parameters(policy: usize, given: bool) -> (reads: bool)
    ensures
        reads == (policy == CERT_CHAIN_POLICY_SSL && given),
{
    policy == CERT_CHAIN_POLICY_SSL && given
}

/// Whether a certificate check for TLS names a server: there is more to its parameters, which say
/// that it is about a server, and a name is `given`.
pub fn checks_server_name(auth_type: Option<u32>, given: bool) -> (named: bool)
    ensures
        named == (auth_type == Some(AUTHTYPE_SERVER) && given),
{
    match auth_type {
        Some(auth_type) => auth_type == AUTHTYPE_SERVER && given,
        None => false,
    }
}

/// A certificate check that is made for the private host instead.
pub struct RedirectedCheck<'a> {
    /// The host that the check is about.
    pub host: String,
    /// The private host.
    pub names: &'a HostNames,
    /// The name that the check is made for, with a NUL behind its code units.
    pub server_name: &'a Vec<u16>,
}

/// Makes a certificate check of an official host one of the private host; `server_name` is there
/// where the check names a server, and there are `names` once the private host is set up.
pub fn redirected_check<'a>(server_name: Option<&[u16]>, names: Option<&'a HostNames>) -> (check:
    Option<RedirectedCheck<'a>>)
    requires
        server_name matches Some(units) ==> wide_complete(units@, MAX_HOST_UNITS as int),
    ensures
        match (read_text(units_of(server_name), MAX_HOST_UNITS as int), names) {
            (Some(text), Some(names)) if official_host(text) => {
                &&& check matches Some(check)
                &&& check.host@ == text
                &&& *check.names == *names
                &&& check.server_name@ == utf16_units(names.host()).push(0)
            },
            _ => check is None,
        },
{
    let names = match names {
        Some(names) => names,
        None => return None,
    };
    match read_name(server_name, MAX_HOST_UNITS) {
        Some(host) => if is_official_sdk_host(host.as_str()) {
            Some(RedirectedCheck { host, names, server_name: names.wide() })
        } else {
            None
        },
        None => None,
    }
}

/// What came of a certificate check.
#[derive(Clone, Copy, Debug, PartialEq, Eq, Structural)]
pub struct CertChainPolicyStatus {
    pub error: u32,
    pub chain_index: i32,
    pub element_index: i32,
}

/// What is made of a certificate check that was made for the private host.
pub struct Verdict {
    /// What the check returns.
    pub result: usize,
    /// The status to write in place of that of the system.
    pub written: Option<CertChainPolicyStatus>,
    pub events: Vec<String>,
}

/// Whether the outcome of a redirected check is overruled.
pub open spec fn overruled(host: Seq<char>, status: Option<CertChainPolicyStatus>) -> bool {
    status matches Some(status) && status.error == CERT_E_CN_NO_MATCH && official_host(host)
}

/// What a redirected check returns, given what the system returns.
pub open spec fn judged_result(
    host: Seq<char>,
    status: Option<CertChainPolicyStatus>,
    result: usize,
) -> usize {
    if overruled(host, status) {
        1
    } else {
        result
    }
}

/// What is written over the status of a redirected check.
pub open spec fn judged_status(
    host: Seq<char>,
    status: Option<CertChainPolicyStatus>,
) -> Option<CertChainPolicyStatus> {
    if overruled(host, status) {
        Some(
            CertChainPolicyStatus {
                error: 0,
                chain_index: (-1) as i32,
                element_index: (-1) as i32,
            },
        )
    } else {
        None
    }
}

/// Judges what the system says of the certificate of a redirected host, by its status and its
/// result: that it names another host is accepted, and anything else stands.
pub fn on_verify_certificate_chain_policy(
    check: &RedirectedCheck,
    status: Option<CertChainPolicyStatus>,
    result: usize,
) -> (verdict: Verdict)
    ensures
        status matches Some(status) && status.error == 0x800B_010F && official_host(check.host@)
            ==> {
            &&& verdict.result == 1
            &&& verdict.written matches Some(written)
            &&& written.error == 0 && written.chain_index == -1 && written.element_index == -1
            &&& verdict.events.deep_view() == seq![
                "sdk certificate host rewrite "@ + check.host@ + " -> "@ + check.names.host(),
                "sdk certificate CN mismatch accepted for redirected host "@ + check.host@,
            ]
        },
        !(status matches Some(status) && status.error == 0x800B_010F && official_host(
            check.host@,
        )) ==> {
            &&& verdict.result == result
            &&& verdict.written is None
            &&& verdict.events.deep_view() == seq![
                "sdk certificate host rewrite "@ + check.host@ + " -> "@ + check.names.host(),
            ]
        },
        verdict.result == judged_result(check.host@, status, result),
        verdict.written == judged_status(check.host@, status),
{
    let host = check.host.as_str();
    let mut event = "sdk certificate host rewrite ".to_owned();
    event.append(host);
    event.append(" -> ");
    event.append(check.names.wide_text().as_str());
    let mut events: Vec<String> = Vec::new();
    let ghost rewrite = event@;
    events.push(event);
    let accepts = match status {
        Some(status) => should_accept_private_cn_mismatch(host, status.error),
        None => false,
    };
    if !accepts {
        assert(events.deep_view() == seq![rewrite]);
        return Verdict { result, written: None, events };
    }
    let mut accepted = "sdk certificate CN mismatch accepted for redirected host ".to_owned();
    accepted.append(host);
    events.push(accepted);
    assert(events.deep_view() == seq![rewrite, accepted@]);
    Verdict {
        result: 1,
        written: Some(CertChainPolicyStatus { error: 0, chain_index: -1, element_index: -1 }),
        events,
    }
}

// Laws.

/// That the certificate of an official host names another host is accepted whatever the place in the
/// chain is that the system gives: the check then succeeds, its error is cleared and its place
/// forgotten. Any other error stands, and so does this one for any other host; what the system gives
/// besides the error does not matter.
pub proof fn only_a_wrong_name_of_an_official_host_is_accepted(
    host: Seq<char>,
    status: CertChainPolicyStatus,
    result: usize,
)
    ensures
        official_host(host) && status.error == 0x800B_010F ==> {
            &&& judged_result(host, Some(status), result) == 1
            &&& judged_status(host, Some(status)) matches Some(written)
            &&& written.error == 0 && written.chain_index == -1 && written.element_index == -1
        },
        !official_host(host) || status.error != 0x800B_010F ==> judged_result(
            host,
            Some(status),
            result,
        ) == result && judged_status(host, Some(status)) is None,
        judged_result(host, None, result) == result,
        judged_status(host, None) is None,
{
}

/// Two checks of the same host that differ in nothing but the place in the chain are judged alike.
pub proof fn the_place_in_the_chain_does_not_matter(
    host: Seq<char>,
    first: CertChainPolicyStatus,
    second: CertChainPolicyStatus,
    result: usize,
)
    requires
        first.error == second.error,
    ensures
        judged_result(host, Some(first), result) == judged_result(host, Some(second), result),
        judged_status(host, Some(first)) == judged_status(host, Some(second)),
{
}

/// A name is read up to its NUL, unless that many code units are too many; what stands behind the NUL
/// does not matter.
pub proof fn names_are_read_up_to_their_nul(text: Seq<char>, rest: Seq<u16>, max_units: int)
    requires
        !text.contains('\0'),
    ensures
        read_text(Some(utf16_units(text) + seq![0u16] + rest), max_units) == if utf16_units(
            text,
        ).len() < max_units {
            Some(text)
        } else {
            None
        },
        read_text(None, max_units) is None,
{
    let units = utf16_units(text);
    let all = units + seq![0u16] + rest;
    texts_without_nul_have_no_zero_unit(text);
    strings_end_at_the_first_nul(units, rest, max_units);
    assert(all.take(units.len() as int) == units);
    utf16_round_trip(text);
}

/// Whatever its code units are, a name is read by them alone as far as its NUL.
pub proof fn names_are_read_by_their_units(units: Seq<u16>, rest: Seq<u16>, max_units: int)
    requires
        forall|i: int| 0 <= i < units.len() ==> #[trigger] units[i] != 0,
    ensures
        read_text(Some(units + seq![0u16] + rest), max_units) == if units.len() < max_units {
            Some(utf16_text(units))
        } else {
            None
        },
        units.len() >= max_units ==> read_text(Some(units), max_units) is None,
        MAX_URL_UNITS == 2048,
        MAX_HOST_UNITS == 512,
{
    let all = units + seq![0u16] + rest;
    strings_end_at_the_first_nul(units, rest, max_units);
    assert(all.take(units.len() as int) == units);
}

/// A port is what is left of a register without its upper bits.
pub proof fn ports_are_the_low_bits(upper: u64, port: u16)
    requires
        upper <= 0xffff_ffff_ffff,
    ensures
        low_bits((upper * 0x1_0000 + port) as u64) == port,
{
    let register = (upper * 0x1_0000 + port) as u64;
    assert(register == upper * 0x1_0000 + port);
    assert(register % 0x1_0000 == port);
}

/// The code units of a string are handed on as they are.
pub proof fn units_are_handed_on(units: Option<&[u16]>)
    ensures
        match units {
            Some(given) => units_of(units) == Some(given@),
            None => units_of(units) is None,
        },
{
}

}
