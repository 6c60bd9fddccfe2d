//! What the user interfaces show: the VPN indicator, the tone of a log
//! line and the text level meter.

use vstd::prelude::*;
use crate::text::{contains_spec, push_char, str_chars, contains_chars, starts_with_spec, starts_with_text};

verus! {

/// The VPN indicator: its colour as red, green and blue, and its label.
pub struct VpnIndicator {
    pub rgb: (u8, u8, u8),
    pub label: String,
}

/// The colour of the VPN indicator for a tunnel state: 1 linking, 2
/// encrypted, 3 error, anything else off.
pub open spec fn vpn_indicator_rgb(status: u32) -> (u8, u8, u8) {
    if status == 1 {
        (230, 230, 50)
    } else if status == 2 {
        (46, 204, 113)
    } else if status == 3 {
        (231, 76, 60)
    } else {
        (149, 165, 166)
    }
}

/// The label of the VPN indicator for a tunnel state.
pub open spec fn vpn_indicator_label(status: u32) -> Seq<char> {
    if status == 1 {
        "⏳ WG Link..."@
    } else if status == 2 {
        "🟢 WG Criptato"@
    } else if status == 3 {
        "❌ Errore VPN"@
    } else {
        "⚪ VPN Off"@
    }
}

/// The VPN indicator of the status bar for a tunnel state.
pub fn vpn_indicator(status: u32) -> (r: VpnIndicator)
    ensures
        r.rgb == vpn_indicator_rgb(status),
        r.label@ == vpn_indicator_label(status),
{
    if status == 1 {
        VpnIndicator { rgb: (230, 230, 50), label: String::from_str("⏳ WG Link...") }
    } else if status == 2 {
        VpnIndicator { rgb: (46, 204, 113), label: String::from_str("🟢 WG Criptato") }
    } else if status == 3 {
        VpnIndicator { rgb: (231, 76, 60), label: String::from_str("❌ Errore VPN") }
    } else {
        VpnIndicator { rgb: (149, 165, 166), label: String::from_str("⚪ VPN Off") }
    }
}

/// The VPN state as the headless console prints it, with terminal colours.
pub open spec fn vpn_console_label(status: u32) -> Seq<char> {
    if status == 1 {
        "\x1b[93m⏳ COLLEGAMENTO\x1b[0m"@
    } else if status == 2 {
        "\x1b[92m🟢 VPN CONNESSA\x1b[0m"@
    } else if status == 3 {
        "\x1b[91m❌ ERRORE CRITICO\x1b[0m"@
    } else {
        "\x1b[90m⚪ DISATTIVATA\x1b[0m"@
    }
}

/// The VPN state text of the headless console.
pub fn vpn_console_text(status: u32) -> (r: String)
    ensures
        r@ == vpn_console_label(status),
{
    if status == 1 {
        String::from_str("\x1b[93m⏳ COLLEGAMENTO\x1b[0m")
    } else if status == 2 {
        String::from_str("\x1b[92m🟢 VPN CONNESSA\x1b[0m")
    } else if status == 3 {
        String::from_str("\x1b[91m❌ ERRORE CRITICO\x1b[0m")
    } else {
        String::from_str("\x1b[90m⚪ DISATTIVATA\x1b[0m")
    }
}

/// The line the VPN page logs when the user switches the tunnel on or off.
pub open spec fn vpn_toggle_line_spec(on: bool) -> Seq<char> {
    if on {
        "🔄 [GUI] Inviato comando di attivazione tunnel..."@
    } else {
        "⚪ [GUI] Inviato comando di smantellamento tunnel."@
    }
}

/// The line the VPN page logs when the user switches the tunnel on or off.
pub fn vpn_toggle_line(on: bool) -> (r: String)
    ensures
        r@ == vpn_toggle_line_spec(on),
{
    if on {
        String::from_str("🔄 [GUI] Inviato comando di attivazione tunnel...")
    } else {
        String::from_str("⚪ [GUI] Inviato comando di smantellamento tunnel.")
    }
}

/// Whether the public key box offers a copy button: not for its messages,
/// which begin with "Chiave".
pub fn public_key_copyable(text: &str) -> (r: bool)
    ensures
        r == !starts_with_spec(text@, "Chiave"@),
{
    !starts_with_text(text, "Chiave")
}

/// Whether the license generator offers a copy button: not for its prompt
/// or its error, which begin with "Inserisci" and "ERRORE".
pub fn license_copyable(text: &str) -> (r: bool)
    ensures
        r == (!starts_with_spec(text@, "Inserisci"@) && !starts_with_spec(text@, "ERRORE"@)),
{
    !starts_with_text(text, "Inserisci") && !starts_with_text(text, "ERRORE")
}

/// How a VPN log line is coloured.
#[derive(PartialEq, Eq, Structural, Clone, Copy, Debug)]
pub enum LogTone {
    /// Red: the line reports an error.
    Error,
    /// Green: the line reports progress.
    Progress,
    /// Grey: anything else.
    Plain,
}

/// The tone of a log line: an error when it holds ❌, else progress when it
/// holds 🔄, 🔒 or 🟢, else plain.
pub open spec fn log_tone_spec(line: Seq<char>) -> LogTone {
    if contains_spec(line, "❌"@) {
        LogTone::Error
    } else if contains_spec(line, "🔄"@) || contains_spec(line, "🔒"@) || contains_spec(
        line,
        "🟢"@,
    ) {
        LogTone::Progress
    } else {
        LogTone::Plain
    }
}

/// The tone a VPN log line is shown in.
pub fn log_tone(line: &str) -> (r: LogTone)
    ensures
        r == log_tone_spec(line@),
{
    let l = str_chars(line);
    if contains_chars(l.as_slice(), str_chars("❌").as_slice()) {
        LogTone::Error
    } else if contains_chars(l.as_slice(), str_chars("🔄").as_slice()) || contains_chars(
        l.as_slice(),
        str_chars("🔒").as_slice(),
    ) || contains_chars(l.as_slice(), str_chars("🟢").as_slice()) {
        LogTone::Progress
    } else {
        LogTone::Plain
    }
}

/// The character at position `i` of a level meter `width` wide with
/// `ticks` lit: lit positions past 80% of the width show `!`, other lit
/// positions `|`, unlit ones `.`.
pub open spec fn meter_char(i: nat, ticks: nat, width: nat) -> char {
    if i < ticks {
        if i > width * 80 / 100 {
            '!'
        } else {
            '|'
        }
    } else {
        '.'
    }
}

/// Draws a text level meter `width` characters wide with `ticks` of them
/// lit; the console turns the level into `ticks`.
pub fn genera_vumeter_string(ticks: usize, width: usize) -> (r: String)
    requires
        width <= usize::MAX / 80,
    ensures
        r@.len() == width,
        forall|i: int| 0 <= i < width ==> r@[i] == meter_char(i as nat, ticks as nat, width as nat),
{
    let limit = width * 80 / 100;
    let mut bar = String::new();
    let mut i: usize = 0;
    while i < width
        invariant
            i <= width,
            limit == width * 80 / 100,
            bar@.len() == i,
            forall|j: int| 0 <= j < i ==> bar@[j] == meter_char(j as nat, ticks as nat, width as nat),
        decreases width - i,
    {
        let c = if i < ticks {
            if i > limit {
                '!'
            } else {
                '|'
            }
        } else {
            '.'
        };
        push_char(&mut bar, c);
        i = i + 1;
    }
    bar
}

/// A meter with more positions lit never shows fewer cells lit: every cell
/// the meter with `t1` lit shows lit is shown the same with `t2 >= t1` lit,
/// and every cell unlit with `t2` lit is unlit with `t1` lit.
pub proof fn lemma_meter_monotone(t1: nat, t2: nat, width: nat)
    requires
        t1 <= t2,
    ensures
        forall|i: nat|
            i < width && #[trigger] meter_char(i, t1, width) != '.' ==> meter_char(i, t2, width)
                == meter_char(i, t1, width),
        forall|i: nat|
            i < width && #[trigger] meter_char(i, t2, width) == '.' ==> meter_char(i, t1, width)
                == '.',
{
}

} // verus!
