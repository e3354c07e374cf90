//! Where the server listens, and how it introduces itself.
use vstd::prelude::*;
use vstd::string::*;

use crate::text;

verus! {

/// The text up to the next `Chrome/`, all of it where there is none.
pub open spec fn before_token(text: Seq<char>) -> Seq<char> {
    match text::find_from(text, "Chrome/"@, 0) {
        Some(next) => text.take(next),
        None => text,
    }
}

/// The Chromium major version that a user-agent string names: what stands
/// behind its first `Chrome/`, up to a dot, white space or the next `Chrome/`.
pub open spec fn chrome_version(user_agent: Seq<char>) -> Seq<char> {
    let token = "Chrome/"@;
    match text::find_from(user_agent, token, 0) {
        Some(at) => text::first_word(
            text::before(before_token(user_agent.skip(at + token.len())), '.'),
        ),
        None => "0"@,
    }
}

/// Extracts the Chromium major version from the `Chrome/` token of a
/// user-agent string, falling back to "0" when the user-agent does not
/// identify as Chromium. Used to keep version reporting consistent with the
/// user-agent.
pub fn chrome_major_version(user_agent: &str) -> (version: &str)
    ensures
        version@ == chrome_version(user_agent@),
{
    let chars = text::characters(user_agent);
    let token = text::characters("Chrome/");
    let Some(at) = text::find(chars.as_slice(), token.as_slice(), 0) else {
        return "0";
    };
    proof {
        text::lemma_find_from(user_agent@, token@, 0);
    }
    let length = chars.len();
    assert(at + token@.len() <= length);
    let start: usize = at + token.len();
    let ghost rest = user_agent@.skip(start as int);
    let rest_chars = &chars.as_slice()[start..length];
    assert(rest_chars@ =~= rest);
    proof {
        text::lemma_find_from(rest, token@, 0);
    }
    let next = match text::find(rest_chars, token.as_slice(), 0) {
        Some(next) => next,
        None => rest_chars.len(),
    };
    let piece = &rest_chars[0..next];
    assert(piece@ =~= before_token(rest));
    assert(piece@.skip(0) =~= piece@);
    let dot = text::index_of(piece, '.', 0);
    let major = &piece[0..dot];
    assert(major@ =~= text::before(piece@, '.'));
    assert(major@.skip(0) =~= major@);
    let end = text::end_of_word(major, 0);
    assert(user_agent@.subrange(start as int, start + end) =~= major@.subrange(0, end as int));
    user_agent.substring_char(start, start + end)
}

/// The number that digits stand for, in decimal notation.
pub open spec fn number(digits: Seq<char>) -> nat
    decreases digits.len(),
{
    if digits.len() == 0 {
        0
    } else {
        number(digits.drop_last()) * 10 + (digits.last() as nat - '0' as nat) as nat
    }
}

/// Every character is a decimal digit.
pub open spec fn all_digits(digits: Seq<char>) -> bool {
    forall|i: int| 0 <= i < digits.len() ==> '0' <= #[trigger] digits[i] <= '9'
}

/// The port that a text gives: digits, perhaps behind a plus sign, of a number
/// that fits 16 bits.
pub open spec fn port_in(text: Seq<char>) -> Option<u16> {
    let digits = if text.len() > 0 && text[0] == '+' {
        text.skip(1)
    } else {
        text
    };
    if digits.len() > 0 && all_digits(digits) && number(digits) <= u16::MAX {
        Some(number(digits) as u16)
    } else {
        None
    }
}

proof fn lemma_number_grows(digits: Seq<char>, n: int)
    requires
        0 <= n <= digits.len(),
        all_digits(digits),
    ensures
        number(digits.take(n)) <= number(digits),
    decreases digits.len() - n,
{
    if n < digits.len() {
        let longer = digits.take(n + 1);
        assert(longer.drop_last() =~= digits.take(n));
        lemma_number_grows(digits, n + 1);
    } else {
        assert(digits.take(n) =~= digits);
    }
}

/// Reads a port number.
fn parse_port(port: &str) -> (result: Option<u16>)
    ensures
        result == port_in(port@),
{
    let chars = text::characters(port);
    let start: usize = if chars.len() > 0 && chars[0] == '+' {
        1
    } else {
        0
    };
    let ghost digits = if start == 1 {
        port@.skip(1)
    } else {
        port@
    };
    assert(digits =~= chars@.skip(start as int));
    if start == chars.len() {
        return None;
    }
    let mut n: u32 = 0;
    let mut i: usize = start;
    assert(digits.take(0) =~= Seq::empty());
    while i < chars.len()
        invariant
            start <= i <= chars@.len(),
            digits == chars@.skip(start as int),
            digits == if port@.len() > 0 && port@[0] == '+' {
                port@.skip(1)
            } else {
                port@
            },
            all_digits(digits.take(i - start)),
            n == number(digits.take(i - start)),
            n <= u16::MAX,
        decreases chars@.len() - i,
    {
        let c = chars[i];
        assert(digits[i - start] == c);
        if c < '0' || c > '9' {
            assert(!all_digits(digits));
            return None;
        }
        let ghost front = digits.take(i - start + 1);
        assert(front.drop_last() =~= digits.take(i - start));
        assert(all_digits(front)) by {
            assert forall|j: int| 0 <= j < front.len() implies '0' <= #[trigger] front[j] <= '9' by {
                if j < i - start {
                    assert(front[j] == digits.take(i - start)[j]);
                }
            }
        }
        n = n * 10 + (c as u32 - '0' as u32);
        i += 1;
        if n > 65535 {
            proof {
                if all_digits(digits) {
                    lemma_number_grows(digits, i - start);
                }
            }
            return None;
        }
    }
    assert(digits.take(i - start) =~= digits);
    Some(n as u16)
}

/// The port of the server where nothing else is asked for.
pub const DEFAULT_PORT: u16 = 9222;

/// Where the server listens.
#[derive(Clone, Copy, Debug, Eq, PartialEq, Structural)]
pub enum ListenAddress {
    /// The address and the port that were given.
    AsGiven,
    /// A port of the local host.
    Local(u16),
}

/// Where the server is to listen, for a preference and whether it is an address
/// with a port.
pub open spec fn listen_choice(listen_address: Seq<char>, is_socket_address: bool) -> ListenAddress {
    match port_in(listen_address) {
        _ if listen_address.len() > 0 && is_socket_address => ListenAddress::AsGiven,
        Some(port) => ListenAddress::Local(port),
        None => ListenAddress::Local(DEFAULT_PORT),
    }
}

/// Resolves the listen address preference, which accepts either an
/// `address:port` pair or a bare port number. `is_socket_address` says whether
/// the text is such a pair.
pub fn parse_listen_address(listen_address: &str, is_socket_address: bool) -> (address:
    ListenAddress)
    ensures
        address == if listen_address@.len() == 0 {
            ListenAddress::Local(DEFAULT_PORT)
        } else if is_socket_address {
            ListenAddress::AsGiven
        } else if let Some(port) = port_in(listen_address@) {
            ListenAddress::Local(port)
        } else {
            ListenAddress::Local(DEFAULT_PORT)
        },
        address == listen_choice(listen_address@, is_socket_address),
{
    if listen_address.unicode_len() == 0 {
        return ListenAddress::Local(DEFAULT_PORT);
    }
    if is_socket_address {
        return ListenAddress::AsGiven;
    }
    match parse_port(listen_address) {
        Some(port) => ListenAddress::Local(port),
        None => ListenAddress::Local(DEFAULT_PORT),
    }
}

/// The URL under which a debugger reaches the browser.
pub open spec fn debugger_url(address: Seq<char>, browser_id: Seq<char>) -> Seq<char> {
    "ws://"@ + address + "/devtools/browser/"@ + browser_id
}

/// The URL under which a debugger reaches the browser.
pub fn web_socket_debugger_url(address: &str, browser_id: &str) -> (url: String)
    ensures
        url@ == debugger_url(address@, browser_id@),
{
    let mut url = "ws://".to_string();
    url.push_str(address);
    url.push_str("/devtools/browser/");
    url.push_str(browser_id);
    assert(url@ =~= debugger_url(address@, browser_id@));
    url
}

} // verus!
