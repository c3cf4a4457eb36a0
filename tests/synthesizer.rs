use rpi_imager_tui::customization::{CustomizationOptions, CustomizationTab, CustomizationUiState, InputMode};
use rpi_imager_tui::shell::{regex_escape, shell_quote};
use sha_crypt::{PasswordVerifier, ShaCrypt};

/// Reads one shell word back: single quotes, double quotes and backslashes.
fn shell_word(q: &str) -> String {
    let mut out = String::new();
    let chars: Vec<char> = q.chars().collect();
    let mut i = 0;
    while i < chars.len() {
        match chars[i] {
            '\'' => {
                i += 1;
                while i < chars.len() && chars[i] != '\'' {
                    out.push(chars[i]);
                    i += 1;
                }
                i += 1;
            }
            '"' => {
                i += 1;
                while i < chars.len() && chars[i] != '"' {
                    if chars[i] == '\\' && i + 1 < chars.len() && "$`\"\\\n".contains(chars[i + 1]) {
                        i += 1;
                    }
                    out.push(chars[i]);
                    i += 1;
                }
                i += 1;
            }
            '\\' if i + 1 < chars.len() => {
                out.push(chars[i + 1]);
                i += 2;
            }
            c => {
                out.push(c);
                i += 1;
            }
        }
    }
    out
}

fn only_hostname(h: &str) -> CustomizationOptions {
    let mut o = CustomizationOptions::default();
    o.hostname = h.to_string();
    o
}

#[test]
fn defaults_match_documented_values() {
    let o = CustomizationOptions::default();
    assert_eq!(o.hostname, "raspberrypi");
    assert_eq!(o.user_name, "pi");
    assert_eq!(o.timezone, "Europe/London");
    assert_eq!(o.keyboard_layout, "gb");
    assert_eq!(o.locale, "en_GB.UTF-8");
    assert_eq!(o.wifi_country, "GB");
    assert!(!o.ssh_enabled);
    assert!(o.ssh_password_auth);
    assert!(o.wifi_ssid.is_empty());
    assert!(o.password.is_none());
    let ui = CustomizationUiState::default();
    assert_eq!(ui.current_tab, CustomizationTab::General);
    assert_eq!(ui.input_mode, InputMode::Navigation);
    assert_eq!(ui.selected_field_index, 0);
}

#[test]
fn tabs_cycle_both_ways() {
    assert_eq!(CustomizationTab::General.next(), CustomizationTab::Services);
    assert_eq!(CustomizationTab::Services.next(), CustomizationTab::Options);
    assert_eq!(CustomizationTab::Options.next(), CustomizationTab::General);
    assert_eq!(CustomizationTab::General.prev(), CustomizationTab::Options);
    assert_eq!(CustomizationTab::Options.prev(), CustomizationTab::Services);
    assert_eq!(CustomizationTab::Services.prev(), CustomizationTab::General);
}

#[test]
fn hostname_only_settings() {
    let script = only_hostname("pi-lab").synthesize(None);
    assert!(script.starts_with("#!/bin/bash\nset +e\n"));
    assert!(script.contains("imager_custom set_hostname 'pi-lab'"));
    assert!(script.contains("echo 'pi-lab' >/etc/hostname"));
    assert!(!script.contains("systemctl enable ssh"));
    assert!(!script.contains("wpa_supplicant"));
    assert!(!script.contains("chpasswd"));
    assert!(!script.contains("usermod"));
    assert!(script.ends_with("rm -f /boot/firstrun.sh\nsed -i 's| systemd.run.*||g' /boot/cmdline.txt\nexit 0\n"));
}

#[test]
fn ssh_key_without_password_login() {
    let mut o = CustomizationOptions::default();
    o.ssh_enabled = true;
    o.ssh_public_keys = "ssh-ed25519 AAAA... a@b".to_string();
    o.ssh_password_auth = false;
    let script = o.synthesize(None);
    assert!(script.contains("systemctl enable ssh\n"));
    assert!(script.contains("<<'EOF'\nssh-ed25519 AAAA... a@b\nEOF\n"));
    assert!(script.contains("install -o \"$FIRSTUSER\" -m 700 -d \"$FIRSTUSERHOME/.ssh\""));
    assert!(script.contains("chmod 600 \"$FIRSTUSERHOME/.ssh/authorized_keys\""));
    assert!(script.contains("echo 'PasswordAuthentication no' >> /etc/ssh/sshd_config\n"));
    let keys_at = script.find("ssh-ed25519").unwrap();
    let directive_at = script.find("PasswordAuthentication no").unwrap();
    assert!(keys_at < directive_at);
}

#[test]
fn ssh_with_password_login_keeps_it() {
    let mut o = CustomizationOptions::default();
    o.ssh_enabled = true;
    let script = o.synthesize(None);
    assert!(script.contains("systemctl enable ssh\n"));
    assert!(!script.contains("PasswordAuthentication"));
    assert!(!script.contains("authorized_keys"));
}

#[test]
fn synthesize_twice_is_byte_identical() {
    let mut o = CustomizationOptions::default();
    o.hostname = "a$b'c\"d".to_string();
    o.wifi_ssid = "home".to_string();
    o.wifi_password = "secret".to_string();
    o.wifi_hidden = true;
    o.ssh_enabled = true;
    let first = o.synthesize(Some("$6$salt$hash"));
    let second = o.synthesize(Some("$6$salt$hash"));
    assert_eq!(first, second);
    let mut other = o.clone();
    other.telemetry = !o.telemetry;
    other.eject_finished = !o.eject_finished;
    assert_eq!(other.synthesize(Some("$6$salt$hash")), first);
}

#[test]
fn quoted_fields_read_back_unchanged() {
    for value in ["plain", "it's", "a\"b", "$HOME", "x'$(rm -rf /)'\"y", "''", ""] {
        assert_eq!(shell_word(&shell_quote(value)), value);
    }
    assert_eq!(shell_quote("it's"), "'it'\"'\"'s'");
    let host = "pi's \"lab\" $HOST";
    let script = only_hostname(host).synthesize(None);
    let line = script.lines().find(|l| l.trim_start().starts_with("echo ")).unwrap();
    let word = line.trim_start().strip_prefix("echo ").unwrap().strip_suffix(" >/etc/hostname").unwrap();
    assert_eq!(shell_word(word), host);
}

#[test]
fn user_block_quotes_name_and_hash() {
    let mut o = CustomizationOptions::default();
    o.user_name = "o'brien".to_string();
    let script = o.synthesize(Some("$6$abc$def"));
    assert!(script.contains("usermod -l 'o'\"'\"'brien' \"$FIRSTUSER\""));
    assert!(script.contains("echo 'o'\"'\"'brien':'$6$abc$def' | chpasswd -e\n"));
    assert!(script.contains("groupmod -n 'o'\"'\"'brien' \"$FIRSTUSER\"\nfi\necho "));
    let line = script.lines().find(|l| l.ends_with("| chpasswd -e")).unwrap();
    let word = line.strip_prefix("echo ").unwrap().strip_suffix(" | chpasswd -e").unwrap();
    assert_eq!(shell_word(word), "o'brien:$6$abc$def");
}

#[test]
fn password_is_hashed_before_it_reaches_the_script() {
    let mut o = CustomizationOptions::default();
    o.password = Some("hunter2secret".to_string());
    let salt = b"0123456789abcdef";
    let script = o.generate_firstrun_script(salt);
    assert!(!script.contains("hunter2secret"));
    assert!(script.contains("'$6$"));
    assert!(script.contains("chpasswd -e"));
    assert_eq!(script, o.generate_firstrun_script(salt));
    let no_password = CustomizationOptions::default().generate_firstrun_script(salt);
    assert!(!no_password.contains("chpasswd"));
}

#[test]
fn wifi_block_is_literal_heredoc() {
    let mut o = CustomizationOptions::default();
    o.wifi_ssid = "My $SSID".to_string();
    o.wifi_password = "pa'ss".to_string();
    o.wifi_country = "DE".to_string();
    let script = o.synthesize(None);
    assert!(script.contains("<<'EOF'\nctrl_interface=DIR=/var/run/wpa_supplicant GROUP=netdev\nupdate_config=1\ncountry=DE\n"));
    assert!(script.contains("    ssid=\"My $SSID\"\n    psk=\"pa'ss\"\n}\nEOF\n"));
    assert!(!script.contains("scan_ssid=1"));
    o.wifi_hidden = true;
    assert!(o.synthesize(None).contains("    psk=\"pa'ss\"\n    scan_ssid=1\n}\nEOF\n"));
}

#[test]
fn locale_is_regex_escaped_then_quoted() {
    assert_eq!(regex_escape("en_GB.UTF-8"), "en_GB\\.UTF-8");
    assert_eq!(regex_escape("a/b*[c]^$\\"), "a\\/b\\*\\[c\\]\\^\\$\\\\");
    let script = CustomizationOptions::default().synthesize(None);
    assert!(script.contains("sed -i 's/^# *\\(''en_GB\\.UTF-8''\\)/\\1/' /etc/locale.gen\nlocale-gen\nupdate-locale LANG='en_GB.UTF-8'\n"));
    assert!(script.contains("echo 'Europe/London' >/etc/timezone\n"));
    assert!(script.contains("XKBLAYOUT=\"gb\"\n"));
}

#[test]
fn empty_settings_give_only_header_and_footer() {
    let mut o = CustomizationOptions::default();
    o.hostname = String::new();
    o.timezone = String::new();
    o.keyboard_layout = String::new();
    o.locale = String::new();
    assert_eq!(
        o.synthesize(None),
        "#!/bin/bash\nset +e\n\nrm -f /boot/firstrun.sh\nsed -i 's| systemd.run.*||g' /boot/cmdline.txt\nexit 0\n"
    );
}

#[test]
fn embedded_hash_verifies_against_the_password() {
    let mut o = CustomizationOptions::default();
    o.password = Some("correct horse".to_string());
    let script = o.generate_firstrun_script(b"saltsaltsalt");
    let start = script.find("'$6$").unwrap() + 1;
    let end = start + script[start..].find('\'').unwrap();
    let hash = &script[start..end];
    assert!(ShaCrypt::SHA512.verify_password(b"correct horse", hash).is_ok());
    assert!(ShaCrypt::SHA512.verify_password(b"wrong horse", hash).is_err());
}

#[test]
fn non_default_user_without_password_is_renamed() {
    let mut o = CustomizationOptions::default();
    let name = "a\"b$c'd";
    o.user_name = name.to_string();
    let script = o.synthesize(None);
    assert!(script.contains("usermod -l "));
    assert!(!script.contains("chpasswd"));
    let line = script.lines().find(|l| l.trim_start().starts_with("usermod -l ")).unwrap();
    let word = line.trim_start().strip_prefix("usermod -l ").unwrap().strip_suffix(" \"$FIRSTUSER\"").unwrap();
    assert_eq!(shell_word(word), name);
    assert!(o.generate_firstrun_script(b"").contains("usermod -l "));
}

#[test]
fn default_user_with_password_sets_it() {
    let mut o = CustomizationOptions::default();
    o.password = Some("pw".to_string());
    let script = o.generate_firstrun_script(b"s");
    assert!(script.contains("echo 'pi':'$6$"));
    assert!(script.contains("if [ \"$FIRSTUSER\" != 'pi' ]; then"));
}
