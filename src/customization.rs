//! Provisioning settings and the first-boot script that carries them out.

use vstd::prelude::*;
use vstd::string::*;
use crate::shell::{
    lemma_shell_quote_round_trip, regex_escape, regex_escaped, shell_quote, shell_quoted, unquote,
};
use crate::text::{opt_str_view, opt_string_view, push_str, str_eq};
use sha_crypt::PasswordHasher;

verus! {

/// What the user chose to set up on the written system.
#[derive(Debug, Clone)]
pub struct CustomizationOptions {
    pub hostname: String,
    pub timezone: String,
    pub keyboard_layout: String,
    /// Name of the primary (uid 1000) account.
    pub user_name: String,
    /// Plain-text password; only its salted hash ever reaches the script.
    pub password: Option<String>,
    pub ssh_enabled: bool,
    pub ssh_password_auth: bool,
    pub ssh_public_keys: String,
    pub wifi_ssid: String,
    pub wifi_password: String,
    pub wifi_country: String,
    pub wifi_hidden: bool,
    pub locale: String,
    pub telemetry: bool,
    pub eject_finished: bool,
}

pub const DEFAULT_HOSTNAME: &'static str = "raspberrypi";

pub const DEFAULT_TIMEZONE: &'static str = "Europe/London";

pub const DEFAULT_KEYBOARD: &'static str = "gb";

pub const DEFAULT_USER: &'static str = "pi";

pub const DEFAULT_WIFI_COUNTRY: &'static str = "GB";

pub const DEFAULT_LOCALE: &'static str = "en_GB.UTF-8";

impl Default for CustomizationOptions {
    fn default() -> (r: Self)
        ensures
            r.hostname@ == DEFAULT_HOSTNAME@,
            r.timezone@ == DEFAULT_TIMEZONE@,
            r.keyboard_layout@ == DEFAULT_KEYBOARD@,
            r.user_name@ == DEFAULT_USER@,
            r.password is None,
            !r.ssh_enabled,
            r.ssh_password_auth,
            r.ssh_public_keys@.len() == 0,
            r.wifi_ssid@.len() == 0,
            r.wifi_password@.len() == 0,
            r.wifi_country@ == DEFAULT_WIFI_COUNTRY@,
            !r.wifi_hidden,
            r.locale@ == DEFAULT_LOCALE@,
            r.telemetry,
            r.eject_finished,
    {
        CustomizationOptions {
            hostname: String::from_str(DEFAULT_HOSTNAME),
            timezone: String::from_str(DEFAULT_TIMEZONE),
            keyboard_layout: String::from_str(DEFAULT_KEYBOARD),
            user_name: String::from_str(DEFAULT_USER),
            password: None,
            ssh_enabled: false,
            ssh_password_auth: true,
            ssh_public_keys: String::new(),
            wifi_ssid: String::new(),
            wifi_password: String::new(),
            wifi_country: String::from_str(DEFAULT_WIFI_COUNTRY),
            wifi_hidden: false,
            locale: String::from_str(DEFAULT_LOCALE),
            telemetry: true,
            eject_finished: true,
        }
    }
}

/// The tabs of the settings dialog, in their cyclic order.
#[derive(Debug, Clone, Copy, PartialEq, Eq, Structural)]
pub enum CustomizationTab {
    General,
    Services,
    Options,
}

impl CustomizationTab {
    pub open spec fn spec_next(self) -> CustomizationTab {
        match self {
            CustomizationTab::General => CustomizationTab::Services,
            CustomizationTab::Services => CustomizationTab::Options,
            CustomizationTab::Options => CustomizationTab::General,
        }
    }

    pub open spec fn spec_prev(self) -> CustomizationTab {
        match self {
            CustomizationTab::General => CustomizationTab::Options,
            CustomizationTab::Services => CustomizationTab::General,
            CustomizationTab::Options => CustomizationTab::Services,
        }
    }

    /// The tab after this one, wrapping round to the first.
    pub fn next(&self) -> (r: Self)
        ensures
            r == self.spec_next(),
            r.spec_prev() == *self,
    {
        match self {
            CustomizationTab::General => CustomizationTab::Services,
            CustomizationTab::Services => CustomizationTab::Options,
            CustomizationTab::Options => CustomizationTab::General,
        }
    }

    /// The tab before this one, wrapping round to the last.
    pub fn prev(&self) -> (r: Self)
        ensures
            r == self.spec_prev(),
            r.spec_next() == *self,
    {
        match self {
            CustomizationTab::General => CustomizationTab::Options,
            CustomizationTab::Services => CustomizationTab::General,
            CustomizationTab::Options => CustomizationTab::Services,
        }
    }
}

/// Whether keys move between fields or edit the text of one.
#[derive(Debug, Clone, PartialEq, Eq, Structural)]
pub enum InputMode {
    Navigation,
    Editing,
}

/// Where the settings dialog stands.
pub struct CustomizationUiState {
    pub current_tab: CustomizationTab,
    pub selected_field_index: usize,
    pub input_mode: InputMode,
    /// The text of the field being edited.
    pub input_buffer: String,
}

impl Default for CustomizationUiState {
    fn default() -> (r: Self)
        ensures
            r.current_tab == CustomizationTab::General,
            r.selected_field_index == 0,
            r.input_mode == InputMode::Navigation,
            r.input_buffer@.len() == 0,
    {
        CustomizationUiState {
            current_tab: CustomizationTab::General,
            selected_field_index: 0,
            input_mode: InputMode::Navigation,
            input_buffer: String::new(),
        }
    }
}

pub const SCRIPT_HEADER: &'static str = "#!/bin/bash\nset +e\n\n";

pub const HOSTNAME_HELPER: &'static str = "if [ -f /usr/lib/raspberrypi-sys-mods/imager_custom ]; then\n   /usr/lib/raspberrypi-sys-mods/imager_custom set_hostname ";

pub const HOSTNAME_FALLBACK: &'static str = "\nelse\n   echo ";

pub const HOSTNAME_HOSTS: &'static str = " >/etc/hostname\n   sed -i \"s/127\\.0\\.1\\.1.*/127.0.1.1\\t\"";

pub const HOSTNAME_END: &'static str = "\"/g\" /etc/hosts\nfi\n";

pub const SSH_ENABLE: &'static str = "systemctl enable ssh\n";

pub const SSH_KEYS_START: &'static str = "FIRSTUSER=$(getent passwd 1000 | cut -d: -f1)\nFIRSTUSERHOME=$(getent passwd 1000 | cut -d: -f6)\ninstall -o \"$FIRSTUSER\" -m 700 -d \"$FIRSTUSERHOME/.ssh\"\ncat > \"$FIRSTUSERHOME/.ssh/authorized_keys\" <<'EOF'\n";

pub const SSH_KEYS_END: &'static str = "\nEOF\nchown \"$FIRSTUSER:\" \"$FIRSTUSERHOME/.ssh/authorized_keys\"\nchmod 600 \"$FIRSTUSERHOME/.ssh/authorized_keys\"\n";

pub const SSH_NO_PASSWORD: &'static str = "echo 'PasswordAuthentication no' >> /etc/ssh/sshd_config\n";

pub const USER_START: &'static str = "FIRSTUSER=$(getent passwd 1000 | cut -d: -f1)\nif [ \"$FIRSTUSER\" != ";

pub const USER_RENAME: &'static str = " ]; then\n   usermod -l ";

pub const USER_RENAME_FROM: &'static str = " \"$FIRSTUSER\"\n   usermod -m -d \"/home/\"";

pub const USER_SEP: &'static str = " ";

pub const USER_GROUP: &'static str = "\n   groupmod -n ";

pub const USER_GROUP_END: &'static str = " \"$FIRSTUSER\"\nfi\n";

pub const PASSWORD_START: &'static str = "echo ";

pub const USER_COLON: &'static str = ":";

pub const USER_END: &'static str = " | chpasswd -e\n";

pub const WIFI_START: &'static str = "cat > /etc/wpa_supplicant/wpa_supplicant.conf <<'EOF'\nctrl_interface=DIR=/var/run/wpa_supplicant GROUP=netdev\nupdate_config=1\ncountry=";

pub const WIFI_SSID: &'static str = "\n\nnetwork={\n    ssid=\"";

pub const WIFI_PSK: &'static str = "\"\n    psk=\"";

pub const WIFI_PSK_END: &'static str = "\"\n";

pub const WIFI_HIDDEN: &'static str = "    scan_ssid=1\n";

pub const WIFI_END: &'static str = "}\nEOF\nchmod 600 /etc/wpa_supplicant/wpa_supplicant.conf\nrfkill unblock wifi\n";

pub const TIMEZONE_START: &'static str = "rm -f /etc/localtime\necho ";

pub const TIMEZONE_END: &'static str = " >/etc/timezone\ndpkg-reconfigure -f noninteractive tzdata\n";

pub const KEYBOARD_START: &'static str = "cat > /etc/default/keyboard <<'EOF'\nXKBMODEL=\"pc105\"\nXKBLAYOUT=\"";

pub const KEYBOARD_END: &'static str = "\"\nXKBVARIANT=\"\"\nXKBOPTIONS=\"\"\nEOF\ndpkg-reconfigure -f noninteractive keyboard-configuration\n";

pub const LOCALE_START: &'static str = "sed -i 's/^# *\\('";

pub const LOCALE_GEN: &'static str = "'\\)/\\1/' /etc/locale.gen\nlocale-gen\nupdate-locale LANG=";

pub const LOCALE_END: &'static str = "\n";

pub const SCRIPT_FOOTER: &'static str = "rm -f /boot/firstrun.sh\nsed -i 's| systemd.run.*||g' /boot/cmdline.txt\nexit 0\n";

/// Sets the hostname, through the distribution's helper where it is
/// installed and by hand otherwise.
pub open spec fn hostname_block(h: Seq<char>) -> Seq<char> {
    if h.len() == 0 {
        Seq::empty()
    } else {
        HOSTNAME_HELPER@ + shell_quoted(h) + HOSTNAME_FALLBACK@ + shell_quoted(h) + HOSTNAME_HOSTS@
            + shell_quoted(h) + HOSTNAME_END@
    }
}

/// Installs the authorized keys, as a literal heredoc, for the uid-1000 user.
pub open spec fn ssh_keys_block(keys: Seq<char>) -> Seq<char> {
    if keys.len() == 0 {
        Seq::empty()
    } else {
        SSH_KEYS_START@ + keys + SSH_KEYS_END@
    }
}

/// Turns password logins off.
pub open spec fn ssh_password_block(password_auth: bool) -> Seq<char> {
    if password_auth {
        Seq::empty()
    } else {
        SSH_NO_PASSWORD@
    }
}

/// Enables the SSH service with its keys and login policy.
pub open spec fn ssh_block(enabled: bool, password_auth: bool, keys: Seq<char>) -> Seq<char> {
    if enabled {
        SSH_ENABLE@ + ssh_keys_block(keys) + ssh_password_block(password_auth)
    } else {
        Seq::empty()
    }
}

/// Whether the script touches the account: a name other than the default,
/// or a password to set.
pub open spec fn has_user_block(name: Seq<char>, hash: Option<Seq<char>>) -> bool {
    hash is Some || name != DEFAULT_USER@
}

/// Gives the crypt-format password `hash`, if any, to the user `name`.
pub open spec fn password_line(name: Seq<char>, hash: Option<Seq<char>>) -> Seq<char> {
    match hash {
        None => Seq::empty(),
        Some(h) => PASSWORD_START@ + shell_quoted(name) + USER_COLON@ + shell_quoted(h) + USER_END@,
    }
}

/// Renames the uid-1000 user to `name` unless it already has that name,
/// then sets its password when a hash is given.
pub open spec fn user_block(name: Seq<char>, hash: Option<Seq<char>>) -> Seq<char> {
    if has_user_block(name, hash) {
        USER_START@ + shell_quoted(name) + USER_RENAME@ + shell_quoted(name) + USER_RENAME_FROM@
            + shell_quoted(name) + USER_SEP@ + shell_quoted(name) + USER_GROUP@ + shell_quoted(name)
            + USER_GROUP_END@ + password_line(name, hash)
    } else {
        Seq::empty()
    }
}

pub open spec fn wifi_hidden_line(hidden: bool) -> Seq<char> {
    if hidden {
        WIFI_HIDDEN@
    } else {
        Seq::empty()
    }
}

/// Writes the supplicant configuration as a literal heredoc.
pub open spec fn wifi_block(ssid: Seq<char>, psk: Seq<char>, country: Seq<char>, hidden: bool) -> Seq<
    char,
> {
    if ssid.len() == 0 {
        Seq::empty()
    } else {
        WIFI_START@ + country + WIFI_SSID@ + ssid + WIFI_PSK@ + psk + WIFI_PSK_END@
            + wifi_hidden_line(hidden) + WIFI_END@
    }
}

pub open spec fn timezone_block(tz: Seq<char>) -> Seq<char> {
    if tz.len() == 0 {
        Seq::empty()
    } else {
        TIMEZONE_START@ + shell_quoted(tz) + TIMEZONE_END@
    }
}

pub open spec fn keyboard_block(layout: Seq<char>) -> Seq<char> {
    if layout.len() == 0 {
        Seq::empty()
    } else {
        KEYBOARD_START@ + layout + KEYBOARD_END@
    }
}

/// Activates `locale` in /etc/locale.gen (the value escaped for the regular
/// expression, then quoted) and makes it the default.
pub open spec fn locale_block(locale: Seq<char>) -> Seq<char> {
    if locale.len() == 0 {
        Seq::empty()
    } else {
        LOCALE_START@ + shell_quoted(regex_escaped(locale)) + LOCALE_GEN@ + shell_quoted(locale)
            + LOCALE_END@
    }
}

/// The first-boot script for the settings `o`, with `hash` the crypt-format
/// hash of the password, if one is set.
pub open spec fn firstrun_script(o: CustomizationOptions, hash: Option<Seq<char>>) -> Seq<char> {
    SCRIPT_HEADER@ + hostname_block(o.hostname@) + ssh_block(
        o.ssh_enabled,
        o.ssh_password_auth,
        o.ssh_public_keys@,
    ) + user_block(o.user_name@, hash) + wifi_block(
        o.wifi_ssid@,
        o.wifi_password@,
        o.wifi_country@,
        o.wifi_hidden,
    ) + timezone_block(o.timezone@) + keyboard_block(o.keyboard_layout@) + locale_block(o.locale@)
        + SCRIPT_FOOTER@
}

/// Whether two settings agree on every field that the script reads; the
/// telemetry and eject flags are not among them.
pub open spec fn same_script_settings(a: CustomizationOptions, b: CustomizationOptions) -> bool {
    &&& a.hostname@ == b.hostname@
    &&& a.timezone@ == b.timezone@
    &&& a.keyboard_layout@ == b.keyboard_layout@
    &&& a.user_name@ == b.user_name@
    &&& a.ssh_enabled == b.ssh_enabled
    &&& a.ssh_password_auth == b.ssh_password_auth
    &&& a.ssh_public_keys@ == b.ssh_public_keys@
    &&& a.wifi_ssid@ == b.wifi_ssid@
    &&& a.wifi_password@ == b.wifi_password@
    &&& a.wifi_country@ == b.wifi_country@
    &&& a.wifi_hidden == b.wifi_hidden
    &&& a.locale@ == b.locale@
}

/// Synthesis is a function of the settings: two calls with the same
/// settings (and the same password hash) give the same script, whatever
/// the telemetry and eject flags say.
pub proof fn lemma_synthesize_deterministic(
    a: CustomizationOptions,
    b: CustomizationOptions,
    hash: Option<Seq<char>>,
)
    requires
        same_script_settings(a, b),
    ensures
        firstrun_script(a, hash) == firstrun_script(b, hash),
{
}

/// The hostname can be read back from the script: its quoted form stands in
/// it, and the shell reads that form as the hostname itself.
pub proof fn lemma_hostname_recoverable(o: CustomizationOptions, hash: Option<Seq<char>>)
    requires
        o.hostname@.len() > 0,
    ensures
        exists|i: int|
            0 <= i && i + shell_quoted(o.hostname@).len() <= firstrun_script(o, hash).len()
                && #[trigger] firstrun_script(o, hash).subrange(
                i,
                i + shell_quoted(o.hostname@).len(),
            ) == shell_quoted(o.hostname@),
        unquote(shell_quoted(o.hostname@)) == o.hostname@,
{
    let q = shell_quoted(o.hostname@);
    let script = firstrun_script(o, hash);
    let start = HOSTNAME_HELPER@ + q;
    let hb = hostname_block(o.hostname@);
    let upto = SCRIPT_HEADER@ + hb;
    // The hostname block opens with the helper call and the quoted name.
    let mut p = start;
    lemma_prefix_of_itself(p);
    lemma_prefix_extend(start, p, HOSTNAME_FALLBACK@);
    p = p + HOSTNAME_FALLBACK@;
    lemma_prefix_extend(start, p, q);
    p = p + q;
    lemma_prefix_extend(start, p, HOSTNAME_HOSTS@);
    p = p + HOSTNAME_HOSTS@;
    lemma_prefix_extend(start, p, q);
    p = p + q;
    lemma_prefix_extend(start, p, HOSTNAME_END@);
    p = p + HOSTNAME_END@;
    assert(p == hb);
    // The script opens with its header and that block.
    let mut s2 = upto;
    lemma_prefix_of_itself(s2);
    let sb = ssh_block(o.ssh_enabled, o.ssh_password_auth, o.ssh_public_keys@);
    lemma_prefix_extend(upto, s2, sb);
    s2 = s2 + sb;
    lemma_prefix_extend(upto, s2, user_block(o.user_name@, hash));
    s2 = s2 + user_block(o.user_name@, hash);
    let wb = wifi_block(o.wifi_ssid@, o.wifi_password@, o.wifi_country@, o.wifi_hidden);
    lemma_prefix_extend(upto, s2, wb);
    s2 = s2 + wb;
    lemma_prefix_extend(upto, s2, timezone_block(o.timezone@));
    s2 = s2 + timezone_block(o.timezone@);
    lemma_prefix_extend(upto, s2, keyboard_block(o.keyboard_layout@));
    s2 = s2 + keyboard_block(o.keyboard_layout@);
    lemma_prefix_extend(upto, s2, locale_block(o.locale@));
    s2 = s2 + locale_block(o.locale@);
    lemma_prefix_extend(upto, s2, SCRIPT_FOOTER@);
    s2 = s2 + SCRIPT_FOOTER@;
    assert(s2 == script);
    let i: int = SCRIPT_HEADER@.len() as int + HOSTNAME_HELPER@.len() as int;
    assert forall|j: int| 0 <= j < q.len() implies script.subrange(i, i + q.len())[j] == q[j] by {
        assert(script.subrange(0, upto.len() as int)[i + j] == upto[i + j]);
        assert(upto[i + j] == hb[HOSTNAME_HELPER@.len() + j]);
        assert(hb.subrange(0, start.len() as int)[HOSTNAME_HELPER@.len() + j]
            == start[HOSTNAME_HELPER@.len() + j]);
    }
    assert(script.subrange(i, i + q.len()) =~= q);
    lemma_shell_quote_round_trip(o.hostname@);
}

/// The user name can be read back from the script whenever the name is not
/// the default or a password is set: its quoted form stands in it, and the
/// shell reads that form as the name itself.
pub proof fn lemma_user_recoverable(o: CustomizationOptions, hash: Option<Seq<char>>)
    requires
        has_user_block(o.user_name@, hash),
    ensures
        exists|i: int|
            0 <= i && i + shell_quoted(o.user_name@).len() <= firstrun_script(o, hash).len()
                && #[trigger] firstrun_script(o, hash).subrange(
                i,
                i + shell_quoted(o.user_name@).len(),
            ) == shell_quoted(o.user_name@),
        unquote(shell_quoted(o.user_name@)) == o.user_name@,
{
    let q = shell_quoted(o.user_name@);
    let script = firstrun_script(o, hash);
    let head = SCRIPT_HEADER@ + hostname_block(o.hostname@) + ssh_block(
        o.ssh_enabled,
        o.ssh_password_auth,
        o.ssh_public_keys@,
    );
    let start = USER_START@ + q;
    let ub = user_block(o.user_name@, hash);
    lemma_user_block_start(o.user_name@, hash);
    let upto = head + ub;
    lemma_script_starts_with_user_block(o, hash);
    let i: int = head.len() as int + USER_START@.len() as int;
    assert forall|j: int| 0 <= j < q.len() implies script.subrange(i, i + q.len())[j] == q[j] by {
        assert(script.subrange(0, upto.len() as int)[i + j] == upto[i + j]);
        assert(upto[i + j] == ub[USER_START@.len() + j]);
        assert(ub.subrange(0, start.len() as int)[USER_START@.len() + j] == start[USER_START@.len()
            + j]);
    }
    assert(script.subrange(i, i + q.len()) =~= q);
    lemma_shell_quote_round_trip(o.user_name@);
}

/// The account block opens with its first line and the quoted name.
proof fn lemma_user_block_start(name: Seq<char>, hash: Option<Seq<char>>)
    requires
        has_user_block(name, hash),
    ensures
        is_prefix(USER_START@ + shell_quoted(name), user_block(name, hash)),
{
    let q = shell_quoted(name);
    let start = USER_START@ + q;
    let mut p = start;
    lemma_prefix_of_itself(p);
    lemma_prefix_extend(start, p, USER_RENAME@);
    p = p + USER_RENAME@;
    lemma_prefix_extend(start, p, q);
    p = p + q;
    lemma_prefix_extend(start, p, USER_RENAME_FROM@);
    p = p + USER_RENAME_FROM@;
    lemma_prefix_extend(start, p, q);
    p = p + q;
    lemma_prefix_extend(start, p, USER_SEP@);
    p = p + USER_SEP@;
    lemma_prefix_extend(start, p, q);
    p = p + q;
    lemma_prefix_extend(start, p, USER_GROUP@);
    p = p + USER_GROUP@;
    lemma_prefix_extend(start, p, q);
    p = p + q;
    lemma_prefix_extend(start, p, USER_GROUP_END@);
    p = p + USER_GROUP_END@;
    lemma_prefix_extend(start, p, password_line(name, hash));
    p = p + password_line(name, hash);
    assert(p == user_block(name, hash));
}

/// The script opens with everything up to and including the account block.
proof fn lemma_script_starts_with_user_block(o: CustomizationOptions, hash: Option<Seq<char>>)
    ensures
        is_prefix(
            SCRIPT_HEADER@ + hostname_block(o.hostname@) + ssh_block(
                o.ssh_enabled,
                o.ssh_password_auth,
                o.ssh_public_keys@,
            ) + user_block(o.user_name@, hash),
            firstrun_script(o, hash),
        ),
{
    let upto = SCRIPT_HEADER@ + hostname_block(o.hostname@) + ssh_block(
        o.ssh_enabled,
        o.ssh_password_auth,
        o.ssh_public_keys@,
    ) + user_block(o.user_name@, hash);
    let mut s2 = upto;
    lemma_prefix_of_itself(s2);
    let wb = wifi_block(o.wifi_ssid@, o.wifi_password@, o.wifi_country@, o.wifi_hidden);
    lemma_prefix_extend(upto, s2, wb);
    s2 = s2 + wb;
    lemma_prefix_extend(upto, s2, timezone_block(o.timezone@));
    s2 = s2 + timezone_block(o.timezone@);
    lemma_prefix_extend(upto, s2, keyboard_block(o.keyboard_layout@));
    s2 = s2 + keyboard_block(o.keyboard_layout@);
    lemma_prefix_extend(upto, s2, locale_block(o.locale@));
    s2 = s2 + locale_block(o.locale@);
    lemma_prefix_extend(upto, s2, SCRIPT_FOOTER@);
    s2 = s2 + SCRIPT_FOOTER@;
    assert(s2 == firstrun_script(o, hash));
}

pub open spec fn is_prefix(p: Seq<char>, s: Seq<char>) -> bool {
    p.len() <= s.len() && s.subrange(0, p.len() as int) == p
}

proof fn lemma_prefix_of_itself(p: Seq<char>)
    ensures
        is_prefix(p, p),
{
    assert(p.subrange(0, p.len() as int) =~= p);
}

proof fn lemma_prefix_extend(p: Seq<char>, s: Seq<char>, t: Seq<char>)
    requires
        is_prefix(p, s),
    ensures
        is_prefix(p, s + t),
{
    assert((s + t).subrange(0, p.len() as int) =~= s.subrange(0, p.len() as int));
}

/// What SHA-512-crypt, with the recommended rounds, makes of a password and
/// a salt: the crypt-format hash, or nothing where the salt is refused.
pub uninterp spec fn sha512_crypt_of(password: Seq<char>, salt: Seq<u8>) -> Option<Seq<char>>;

/// Relies on sha_crypt's `PasswordHasher::hash_password_with_salt` for
/// `ShaCrypt::SHA512`: deterministic in the password and the salt, and
/// never refusing a non-empty salt (it is encoded in the crypt alphabet,
/// which the hash's field check accepts).
#[verifier::external_body]
fn sha512_crypt(password: &str, salt: &[u8]) -> (r: Option<String>)
    ensures
        opt_string_view(r) == sha512_crypt_of(password@, salt@),
        salt@.len() > 0 ==> r is Some,
{
    match sha_crypt::ShaCrypt::SHA512.hash_password_with_salt(password.as_bytes(), salt) {
        Ok(h) => Some(h.as_password_hash_ref().as_str().to_string()),
        Err(_) => None,
    }
}

fn hostname_text(h: &str) -> (r: String)
    ensures
        r@ == hostname_block(h@),
{
    if h.is_empty() {
        return String::new();
    }
    let q = shell_quote(h);
    let mut r = String::from_str(HOSTNAME_HELPER);
    push_str(&mut r, q.as_str());
    push_str(&mut r, HOSTNAME_FALLBACK);
    push_str(&mut r, q.as_str());
    push_str(&mut r, HOSTNAME_HOSTS);
    push_str(&mut r, q.as_str());
    push_str(&mut r, HOSTNAME_END);
    r
}

fn ssh_text(enabled: bool, password_auth: bool, keys: &str) -> (r: String)
    ensures
        r@ == ssh_block(enabled, password_auth, keys@),
{
    if !enabled {
        return String::new();
    }
    let mut key_text = String::new();
    if !keys.is_empty() {
        key_text = String::from_str(SSH_KEYS_START);
        push_str(&mut key_text, keys);
        push_str(&mut key_text, SSH_KEYS_END);
    }
    let mut password_text = String::new();
    if !password_auth {
        password_text = String::from_str(SSH_NO_PASSWORD);
    }
    let mut r = String::from_str(SSH_ENABLE);
    push_str(&mut r, key_text.as_str());
    push_str(&mut r, password_text.as_str());
    r
}

fn user_text(name: &str, hash: Option<&str>) -> (r: String)
    ensures
        r@ == user_block(name@, opt_str_view(hash)),
{
    let default_name = str_eq(name, DEFAULT_USER);
    if hash.is_none() && default_name {
        return String::new();
    }
    let q = shell_quote(name);
    let mut password = String::new();
    match hash {
        Some(h) => {
            let qh = shell_quote(h);
            password = String::from_str(PASSWORD_START);
            push_str(&mut password, q.as_str());
            push_str(&mut password, USER_COLON);
            push_str(&mut password, qh.as_str());
            push_str(&mut password, USER_END);
        },
        None => {},
    }
    let mut r = String::from_str(USER_START);
    push_str(&mut r, q.as_str());
    push_str(&mut r, USER_RENAME);
    push_str(&mut r, q.as_str());
    push_str(&mut r, USER_RENAME_FROM);
    push_str(&mut r, q.as_str());
    push_str(&mut r, USER_SEP);
    push_str(&mut r, q.as_str());
    push_str(&mut r, USER_GROUP);
    push_str(&mut r, q.as_str());
    push_str(&mut r, USER_GROUP_END);
    push_str(&mut r, password.as_str());
    r
}

fn wifi_text(ssid: &str, psk: &str, country: &str, hidden: bool) -> (r: String)
    ensures
        r@ == wifi_block(ssid@, psk@, country@, hidden),
{
    if ssid.is_empty() {
        return String::new();
    }
    let mut hidden_text = String::new();
    if hidden {
        hidden_text = String::from_str(WIFI_HIDDEN);
    }
    let mut r = String::from_str(WIFI_START);
    push_str(&mut r, country);
    push_str(&mut r, WIFI_SSID);
    push_str(&mut r, ssid);
    push_str(&mut r, WIFI_PSK);
    push_str(&mut r, psk);
    push_str(&mut r, WIFI_PSK_END);
    push_str(&mut r, hidden_text.as_str());
    push_str(&mut r, WIFI_END);
    r
}

fn timezone_text(tz: &str) -> (r: String)
    ensures
        r@ == timezone_block(tz@),
{
    if tz.is_empty() {
        return String::new();
    }
    let q = shell_quote(tz);
    let mut r = String::from_str(TIMEZONE_START);
    push_str(&mut r, q.as_str());
    push_str(&mut r, TIMEZONE_END);
    r
}

fn keyboard_text(layout: &str) -> (r: String)
    ensures
        r@ == keyboard_block(layout@),
{
    if layout.is_empty() {
        return String::new();
    }
    let mut r = String::from_str(KEYBOARD_START);
    push_str(&mut r, layout);
    push_str(&mut r, KEYBOARD_END);
    r
}

fn locale_text(locale: &str) -> (r: String)
    ensures
        r@ == locale_block(locale@),
{
    if locale.is_empty() {
        return String::new();
    }
    let escaped = regex_escape(locale);
    let qe = shell_quote(escaped.as_str());
    let q = shell_quote(locale);
    let mut r = String::from_str(LOCALE_START);
    push_str(&mut r, qe.as_str());
    push_str(&mut r, LOCALE_GEN);
    push_str(&mut r, q.as_str());
    push_str(&mut r, LOCALE_END);
    r
}

impl CustomizationOptions {
    /// The first-boot script for these settings, with `password_hash` the
    /// crypt-format hash of the password (no account block without one).
    pub fn synthesize(&self, password_hash: Option<&str>) -> (r: String)
        ensures
            r@ == firstrun_script(*self, opt_str_view(password_hash)),
    {
        let host = hostname_text(self.hostname.as_str());
        let ssh = ssh_text(self.ssh_enabled, self.ssh_password_auth, self.ssh_public_keys.as_str());
        let user = user_text(self.user_name.as_str(), password_hash);
        let wifi = wifi_text(
            self.wifi_ssid.as_str(),
            self.wifi_password.as_str(),
            self.wifi_country.as_str(),
            self.wifi_hidden,
        );
        let tz = timezone_text(self.timezone.as_str());
        let kb = keyboard_text(self.keyboard_layout.as_str());
        let loc = locale_text(self.locale.as_str());
        let mut r = String::from_str(SCRIPT_HEADER);
        push_str(&mut r, host.as_str());
        push_str(&mut r, ssh.as_str());
        push_str(&mut r, user.as_str());
        push_str(&mut r, wifi.as_str());
        push_str(&mut r, tz.as_str());
        push_str(&mut r, kb.as_str());
        push_str(&mut r, loc.as_str());
        push_str(&mut r, SCRIPT_FOOTER);
        r
    }

    /// The first-boot script, with the password (if any) hashed by
    /// SHA-512-crypt under `salt`; the plain password never appears in it.
    pub fn generate_firstrun_script(&self, salt: &[u8]) -> (r: String)
        ensures
            r@ == firstrun_script(
                *self,
                match self.password {
                    Some(p) => sha512_crypt_of(p@, salt@),
                    None => None,
                },
            ),
            self.password is Some && salt@.len() > 0 ==> sha512_crypt_of(
                self.password.unwrap()@,
                salt@,
            ) is Some,
    {
        match &self.password {
            Some(p) => {
                let hash = sha512_crypt(p.as_str(), salt);
                match &hash {
                    Some(h) => self.synthesize(Some(h.as_str())),
                    None => self.synthesize(None),
                }
            },
            None => self.synthesize(None),
        }
    }
}

} // verus!
