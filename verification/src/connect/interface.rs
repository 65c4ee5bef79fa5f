//! The conversation with the network control channel.
//!
//! The channel takes a command as text and answers with text; the answer
//! `FAIL`, with or without white space around it, says that the command
//! failed. Sending and receiving is not done here. For a connection, which
//! takes several commands, [`connect_request`] gives the text of the command
//! of a step and [`connect_advance`] reads the answer and names the next
//! step. For the commands that stand alone there is one function each that
//! reads the answer.

use vstd::prelude::*;
use vstd::string::StringExecFns;
use vstd::utf8::decode_utf8;
use vstd::utf8::encode_utf8_decode_utf8;
use vstd::utf8::valid_utf8;
use crate::text::chars_equal;
use crate::text::decode_or_valid_up_to;
use crate::text::hex_pair;
use crate::text::push_chars;
use crate::text::push_hex_pair;
use crate::text::str_chars;
use crate::text::trimmed;
use crate::text::trimmed_equal;

verus! {

/// Where the control channel of the interface `interface` is found.
pub open spec fn ctrl_path_text(interface: Seq<char>) -> Seq<char> {
    "/var/run/wpa_supplicant/"@ + interface
}

/// Where the control channel of the interface `interface` is found.
pub fn ctrl_path(interface: &str) -> (path: String)
    ensures
        path@ == ctrl_path_text(interface@),
{
    String::from_str("/var/run/wpa_supplicant/").concat(interface)
}

/// The command that asks for the link status.
pub const STATUS_COMMAND: &'static str = "STATUS";

/// The command that starts a scan.
pub const SCAN_COMMAND: &'static str = "SCAN";

/// The command that asks for the results of a scan.
pub const SCAN_RESULTS_COMMAND: &'static str = "SCAN_RESULTS";

/// The command that leaves the current network.
pub const DISCONNECT_COMMAND: &'static str = "DISCONNECT";

/// Whether the answer `response` says that the command failed.
pub open spec fn is_fail(response: Seq<char>) -> bool {
    trimmed(response) == "FAIL"@
}

/// Whether the answer `response` says that the command failed.
pub fn response_failed(response: &str) -> (failed: bool)
    ensures
        failed == is_fail(response@),
{
    trimmed_equal(response, "FAIL")
}

/// The steps of a connection, in their order.
#[derive(Clone, Copy, Debug, PartialEq, Eq, Structural)]
pub enum ConnectStep {
    /// Leave the current network.
    Disconnect,
    /// Forget the network that was configured before.
    RemoveNetwork,
    /// Make room for a network; it is expected to get the number 0.
    AddNetwork,
    /// Set the SSID of the network.
    SetSsid,
    /// Set the pre-shared key of the network.
    SetPsk,
    /// Make the network the one to use.
    SelectNetwork,
    /// Store the configuration.
    SaveConfig,
    /// Read the configuration anew.
    Reconfigure,
    /// Associate.
    Reconnect,
}

/// The bytes `bytes` as hexadecimal digits with small letters.
pub open spec fn hex_text(bytes: Seq<u8>) -> Seq<char>
    decreases bytes.len(),
{
    if bytes.len() == 0 {
        Seq::empty()
    } else {
        hex_text(bytes.drop_last()) + hex_pair(bytes.last(), false)
    }
}

/// The text of the command of `step`. The SSID is sent as text between
/// quotes and the key as hexadecimal digits.
pub open spec fn command_text(step: ConnectStep, ssid: Seq<u8>, psk: Seq<u8>) -> Seq<char> {
    match step {
        ConnectStep::Disconnect => "DISCONNECT"@,
        ConnectStep::RemoveNetwork => "REMOVE_NETWORK 0"@,
        ConnectStep::AddNetwork => "ADD_NETWORK"@,
        ConnectStep::SetSsid => "SET_NETWORK 0 ssid \""@ + decode_utf8(ssid) + "\""@,
        ConnectStep::SetPsk => "SET_NETWORK 0 psk "@ + hex_text(psk),
        ConnectStep::SelectNetwork => "SELECT_NETWORK 0"@,
        ConnectStep::SaveConfig => "SAVE_CONFIG"@,
        ConnectStep::Reconfigure => "RECONFIGURE"@,
        ConnectStep::Reconnect => "RECONNECT"@,
    }
}

/// What is reported where the SSID cannot be sent because it is no text.
pub open spec fn invalid_ssid_text() -> Seq<char> {
    "SSID is not valid UTF-8."@
}

/// What is reported where the command of `step` failed.
pub open spec fn failure_text(step: ConnectStep) -> Seq<char> {
    match step {
        ConnectStep::Disconnect => "Disconnect failed."@,
        ConnectStep::RemoveNetwork => "REMOVE_NETWORK 0 failed."@,
        ConnectStep::AddNetwork => "ADD_NETWORK failed."@,
        ConnectStep::SetSsid => "SET_NETWORK 0 ssid failed."@,
        ConnectStep::SetPsk => "SET_NETWORK 0 psk failed."@,
        ConnectStep::SelectNetwork => "SELECT_NETWORK 0 failed."@,
        ConnectStep::SaveConfig => "SAVE_CONFIG failed."@,
        ConnectStep::Reconfigure => "RECONFIGURE failed."@,
        ConnectStep::Reconnect => "RECONNECT failed."@,
    }
}

/// The step that follows `step`, if one does.
pub open spec fn step_after(step: ConnectStep) -> Option<ConnectStep> {
    match step {
        ConnectStep::Disconnect => Some(ConnectStep::RemoveNetwork),
        ConnectStep::RemoveNetwork => Some(ConnectStep::AddNetwork),
        ConnectStep::AddNetwork => Some(ConnectStep::SetSsid),
        ConnectStep::SetSsid => Some(ConnectStep::SetPsk),
        ConnectStep::SetPsk => Some(ConnectStep::SelectNetwork),
        ConnectStep::SelectNetwork => Some(ConnectStep::SaveConfig),
        ConnectStep::SaveConfig => Some(ConnectStep::Reconfigure),
        ConnectStep::Reconfigure => Some(ConnectStep::Reconnect),
        ConnectStep::Reconnect => None,
    }
}

/// Why the connection ends with the answer `response` to the command of
/// `step`, if it does. A failed command ends it, but for the removal of the
/// earlier network, which fails where there was none. The new network has
/// to get the number 0.
pub open spec fn advance_error(step: ConnectStep, response: Seq<char>) -> Option<Seq<char>> {
    if is_fail(response) {
        if step == ConnectStep::RemoveNetwork {
            None
        } else {
            Some(failure_text(step))
        }
    } else if step == ConnectStep::AddNetwork && trimmed(response) != "0"@ {
        Some("ADD_NETWORK succeeded but returned "@ + response + " instead of 0."@)
    } else {
        None
    }
}

/// The step that a connection starts with.
pub fn connect_start() -> (step: ConnectStep)
    ensures
        step == ConnectStep::Disconnect,
{
    ConnectStep::Disconnect
}

fn push_hex_text(text: &mut String, bytes: &[u8])
    ensures
        final(text)@ == old(text)@ + hex_text(bytes@),
{
    let mut i: usize = 0;
    assert(bytes@.take(0) =~= Seq::<u8>::empty());
    assert(text@ =~= old(text)@ + hex_text(bytes@.take(0)));
    while i < bytes.len()
        invariant
            i <= bytes@.len(),
            text@ == old(text)@ + hex_text(bytes@.take(i as int)),
        decreases bytes@.len() - i,
    {
        let ghost upto = bytes@.take(i + 1);
        assert(upto.drop_last() =~= bytes@.take(i as int));
        push_hex_pair(text, bytes[i], false);
        assert(text@ =~= old(text)@ + hex_text(upto));
        i = i + 1;
    }
    assert(bytes@.take(bytes@.len() as int) =~= bytes@);
}

/// The text of the command of `step`, for the network with the SSID `ssid`
/// and the key `psk`. The SSID has to be valid UTF-8 to be sent.
pub fn connect_request(step: ConnectStep, ssid: &[u8], psk: &[u8]) -> (res: Result<String, String>)
    ensures
        match res {
            Ok(command) => command@ == command_text(step, ssid@, psk@) && !(step
                == ConnectStep::SetSsid && !valid_utf8(ssid@)),
            Err(e) => step == ConnectStep::SetSsid && !valid_utf8(ssid@) && e@
                == invalid_ssid_text(),
        },
{
    match step {
        ConnectStep::Disconnect => Ok(String::from_str("DISCONNECT")),
        ConnectStep::RemoveNetwork => Ok(String::from_str("REMOVE_NETWORK 0")),
        ConnectStep::AddNetwork => Ok(String::from_str("ADD_NETWORK")),
        ConnectStep::SetSsid => match decode_or_valid_up_to(ssid) {
            Ok(name) => {
                proof {
                    encode_utf8_decode_utf8(name@);
                }
                Ok(String::from_str("SET_NETWORK 0 ssid \"").concat(name).concat("\""))
            },
            Err(_) => Err(String::from_str("SSID is not valid UTF-8.")),
        },
        ConnectStep::SetPsk => {
            let mut command = String::from_str("SET_NETWORK 0 psk ");
            push_hex_text(&mut command, psk);
            Ok(command)
        },
        ConnectStep::SelectNetwork => Ok(String::from_str("SELECT_NETWORK 0")),
        ConnectStep::SaveConfig => Ok(String::from_str("SAVE_CONFIG")),
        ConnectStep::Reconfigure => Ok(String::from_str("RECONFIGURE")),
        ConnectStep::Reconnect => Ok(String::from_str("RECONNECT")),
    }
}

fn failure_message(step: ConnectStep) -> (message: String)
    ensures
        message@ == failure_text(step),
{
    match step {
        ConnectStep::Disconnect => String::from_str("Disconnect failed."),
        ConnectStep::RemoveNetwork => String::from_str("REMOVE_NETWORK 0 failed."),
        ConnectStep::AddNetwork => String::from_str("ADD_NETWORK failed."),
        ConnectStep::SetSsid => String::from_str("SET_NETWORK 0 ssid failed."),
        ConnectStep::SetPsk => String::from_str("SET_NETWORK 0 psk failed."),
        ConnectStep::SelectNetwork => String::from_str("SELECT_NETWORK 0 failed."),
        ConnectStep::SaveConfig => String::from_str("SAVE_CONFIG failed."),
        ConnectStep::Reconfigure => String::from_str("RECONFIGURE failed."),
        ConnectStep::Reconnect => String::from_str("RECONNECT failed."),
    }
}

/// Reads the answer `response` to the command of `step`: the connection
/// goes on with the next step, is made where there is none, or ends with
/// the report of what went wrong.
pub fn connect_advance(step: ConnectStep, response: &str) -> (res: Result<
    Option<ConnectStep>,
    String,
>)
    ensures
        match res {
            Ok(next) => advance_error(step, response@) is None && next == step_after(step),
            Err(e) => advance_error(step, response@) == Some(e@),
        },
{
    if response_failed(response) {
        match step {
            ConnectStep::RemoveNetwork => {},
            _ => {
                return Err(failure_message(step));
            },
        }
    } else {
        match step {
            ConnectStep::AddNetwork => {
                if !trimmed_equal(response, "0") {
                    return Err(
                        String::from_str("ADD_NETWORK succeeded but returned ").concat(
                            response,
                        ).concat(" instead of 0."),
                    );
                }
            },
            _ => {},
        }
    }
    Ok(
        match step {
            ConnectStep::Disconnect => Some(ConnectStep::RemoveNetwork),
            ConnectStep::RemoveNetwork => Some(ConnectStep::AddNetwork),
            ConnectStep::AddNetwork => Some(ConnectStep::SetSsid),
            ConnectStep::SetSsid => Some(ConnectStep::SetPsk),
            ConnectStep::SetPsk => Some(ConnectStep::SelectNetwork),
            ConnectStep::SelectNetwork => Some(ConnectStep::SaveConfig),
            ConnectStep::SaveConfig => Some(ConnectStep::Reconfigure),
            ConnectStep::Reconfigure => Some(ConnectStep::Reconnect),
            ConnectStep::Reconnect => None,
        },
    )
}

/// Reads the answer to the command that leaves the current network.
pub fn disconnect_result(response: &str) -> (res: Result<(), String>)
    ensures
        match res {
            Ok(_) => !is_fail(response@),
            Err(e) => is_fail(response@) && e@ == "DISCONNECT failed."@,
        },
{
    if response_failed(response) {
        Err(String::from_str("DISCONNECT failed."))
    } else {
        Ok(())
    }
}

/// The index of the first `c` in `s` at or behind `from`, or the length of
/// `s` where there is none.
pub open spec fn find(s: Seq<char>, c: char, from: int) -> int
    decreases s.len() - from,
{
    if 0 <= from < s.len() && s[from] != c {
        find(s, c, from + 1)
    } else {
        from
    }
}

/// The address that is reported while none is known.
pub open spec fn unknown_address() -> Seq<char> {
    "<unknown>"@
}

/// The status after the line `line` of a status report was read. A line
/// is a key, an equals sign and a value. The key `wpa_state` sets the flag,
/// to 1 where the value is `COMPLETED` and to 0 else; the key `ip_address`
/// sets the address. Every other line is passed over.
pub open spec fn status_after_line(status: (u8, Seq<char>), line: Seq<char>) -> (u8, Seq<char>) {
    let eq = find(line, '=', 0);
    let key = line.take(eq);
    let value = line.skip(eq + 1);
    if eq >= line.len() {
        status
    } else if key == "wpa_state"@ {
        (
            if value == "COMPLETED"@ {
                1u8
            } else {
                0u8
            },
            status.1,
        )
    } else if key == "ip_address"@ {
        (status.0, value)
    } else {
        status
    }
}

/// The status after the lines of `report` from `from` on were read. A line
/// ends with a line feed, or with a carriage return and a line feed, or
/// with the report.
pub open spec fn status_from(report: Seq<char>, from: int, status: (u8, Seq<char>)) -> (
    u8,
    Seq<char>,
)
    decreases report.len() - from,
{
    if from < 0 || from >= report.len() {
        status
    } else {
        let feed = find(report, '\n', from);
        let end = if from < feed < report.len() && report[feed - 1] == '\r' {
            feed - 1
        } else {
            feed
        };
        let after = status_after_line(status, report.subrange(from, end));
        if from <= feed < report.len() {
            status_from(report, feed + 1, after)
        } else {
            after
        }
    }
}

/// The status that `report` gives: the flag is 0 and the address unknown
/// unless a line says otherwise, and of several lines with one key the last
/// counts.
pub open spec fn parsed_status(report: Seq<char>) -> (u8, Seq<char>) {
    status_from(report, 0, (0u8, unknown_address()))
}

fn find_char(chars: &Vec<char>, c: char, from: usize, to: usize) -> (at: usize)
    requires
        from <= to <= chars@.len(),
    ensures
        from <= at <= to,
        at == find(chars@.take(to as int), c, from as int),
        forall|k: int| from <= k < at ==> chars@[k] != c,
        at < to ==> chars@[at as int] == c,
{
    let ghost s = chars@.take(to as int);
    let mut i: usize = from;
    while i < to && chars[i] != c
        invariant
            from <= i <= to <= chars@.len(),
            s == chars@.take(to as int),
            find(s, c, from as int) == find(s, c, i as int),
            forall|k: int| from <= k < i ==> chars@[k] != c,
        decreases to - i,
    {
        i = i + 1;
    }
    i
}

/// The value of a search does not depend on what lies behind the place
/// found or behind the end of the stretch searched.
proof fn lemma_find_within(s: Seq<char>, c: char, from: int, to: int)
    requires
        0 <= from <= to <= s.len(),
    ensures
        find(s.subrange(from, to), c, 0) + from == find(s.take(to), c, from),
    decreases to - from,
{
    let line = s.subrange(from, to);
    if from < to && s[from] != c {
        lemma_find_within(s, c, from + 1, to);
        assert(s.take(to)[from] == s[from]);
        assert(line[0] == s[from]);
        lemma_find_shift(line, c, 0);
        assert(line.skip(1) =~= s.subrange(from + 1, to));
    } else if from < to {
        assert(s.take(to)[from] == s[from]);
        assert(line[0] == s[from]);
    }
}

/// A search from `from + 1` on is a search from `from` on in the text
/// without its first character.
proof fn lemma_find_shift(s: Seq<char>, c: char, from: int)
    requires
        0 <= from < s.len(),
    ensures
        find(s, c, from + 1) == find(s.skip(1), c, from) + 1,
    decreases s.len() - from,
{
    if from + 1 < s.len() && s[from + 1] != c {
        lemma_find_shift(s, c, from + 1);
        assert(s.skip(1)[from] == s[from + 1]);
    } else if from + 1 < s.len() {
        assert(s.skip(1)[from] == s[from + 1]);
    }
}

/// Reads the answer to the status command: the completion flag and the
/// address, or the report that the command failed.
pub fn status_result(output: &str) -> (res: Result<(u8, String), String>)
    ensures
        match res {
            Ok((flag, ip)) => !is_fail(output@) && (flag, ip@) == parsed_status(output@),
            Err(e) => is_fail(output@) && e@ == "STATUS failed."@,
        },
{
    if response_failed(output) {
        return Err(String::from_str("STATUS failed."));
    }
    let chars: Vec<char> = str_chars(output);
    let len: usize = chars.len();
    let mut state: u8 = 0;
    let mut ip: String = String::from_str("<unknown>");
    let mut from: usize = 0;
    while from < len
        invariant
            from <= len,
            len == chars@.len(),
            chars@ == output@,
            parsed_status(output@) == status_from(output@, from as int, (state, ip@)),
        decreases len - from,
    {
        let feed: usize = find_char(&chars, '\n', from, len);
        let end: usize = if from < feed && feed < len && chars[feed - 1] == '\r' {
            feed - 1
        } else {
            feed
        };
        let eq: usize = find_char(&chars, '=', from, end);
        proof {
            assert(chars@.take(len as int) =~= chars@);
            lemma_find_within(chars@, '=', from as int, end as int);
            let line = chars@.subrange(from as int, end as int);
            assert(line.take(eq - from) =~= chars@.subrange(from as int, eq as int));
            if eq < end {
                assert(line.skip(eq - from + 1) =~= chars@.subrange(eq + 1, end as int));
            }
        }
        if eq < end {
            if chars_equal(&chars, from, eq, "wpa_state") {
                state = if chars_equal(&chars, eq + 1, end, "COMPLETED") {
                    1u8
                } else {
                    0u8
                };
            } else if chars_equal(&chars, from, eq, "ip_address") {
                let mut value = String::new();
                push_chars(&mut value, &chars, eq + 1, end);
                assert(value@ =~= chars@.subrange(eq + 1, end as int));
                ip = value;
            }
        }
        from = if feed < len {
            feed + 1
        } else {
            len
        };
    }
    Ok((state, ip))
}

} // verus!
