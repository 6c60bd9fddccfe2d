use audio_bridge::status::{license_copyable, public_key_copyable, vpn_toggle_line};
use audio_bridge::status::{genera_vumeter_string, log_tone, vpn_console_text, vpn_indicator, LogTone};

#[test]
fn indicator_per_state() {
    let i = vpn_indicator(1);
    assert_eq!(i.rgb, (230, 230, 50));
    assert_eq!(i.label, "⏳ WG Link...");
    assert_eq!(vpn_indicator(2).label, "🟢 WG Criptato");
    assert_eq!(vpn_indicator(3).rgb, (231, 76, 60));
    assert_eq!(vpn_indicator(0).label, "⚪ VPN Off");
    assert_eq!(vpn_indicator(9).rgb, (149, 165, 166));
}

#[test]
fn console_state_text() {
    assert_eq!(vpn_console_text(2), "\x1b[92m🟢 VPN CONNESSA\x1b[0m");
    assert_eq!(vpn_console_text(7), "\x1b[90m⚪ DISATTIVATA\x1b[0m");
}

#[test]
fn log_tones() {
    assert_eq!(log_tone("❌ Errore crittografico: x"), LogTone::Error);
    assert_eq!(log_tone("🔒 [VPN] ok ❌"), LogTone::Error);
    assert_eq!(log_tone("🔄 [GUI] Inviato comando"), LogTone::Progress);
    assert_eq!(log_tone("🟢"), LogTone::Progress);
    assert_eq!(log_tone("🚀 Invio pacchetto"), LogTone::Plain);
    assert_eq!(log_tone(""), LogTone::Plain);
}

#[test]
fn vumeter_strings() {
    assert_eq!(genera_vumeter_string(0, 12), "............");
    assert_eq!(genera_vumeter_string(5, 12), "|||||.......");
    // 12 * 80 / 100 = 9: positions 10 and 11 are past the mark.
    assert_eq!(genera_vumeter_string(12, 12), "||||||||||!!");
    assert_eq!(genera_vumeter_string(40, 4), "||||");
    assert_eq!(genera_vumeter_string(3, 0), "");
}

#[test]
fn copy_buttons_and_toggle_lines() {
    assert!(!public_key_copyable("Chiave privata non impostata..."));
    assert!(public_key_copyable("q8Yg3lZxE1n5+fJv0aW7rC9tH2kD4mP6sU8bN0xL1y4="));
    assert!(public_key_copyable("Chiav"));
    assert!(!license_copyable("Inserisci i dati per generare..."));
    assert!(!license_copyable("ERRORE: Campi vuoti!"));
    assert!(license_copyable("0123456789ABCDEF"));
    assert_eq!(vpn_toggle_line(true), "🔄 [GUI] Inviato comando di attivazione tunnel...");
    assert_eq!(vpn_toggle_line(false), "⚪ [GUI] Inviato comando di smantellamento tunnel.");
}

#[test]
fn more_lit_positions_never_fewer_lit_cells() {
    let width = 20;
    let mut prev = genera_vumeter_string(0, width);
    for t in 1..=25 {
        let cur = genera_vumeter_string(t, width);
        for (a, b) in prev.chars().zip(cur.chars()) {
            if a != '.' {
                assert_eq!(a, b);
            }
        }
        assert!(prev.matches('.').count() >= cur.matches('.').count());
        prev = cur;
    }
}
