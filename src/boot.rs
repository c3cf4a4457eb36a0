//! Naming of the boot partition and the boot-argument rewrite.

use vstd::prelude::*;
use vstd::string::*;
use crate::text::{is_digit, push_str};

verus! {

/// The node of the first partition of the whole-disk node `disk`: disks whose
/// name ends in a digit take a `p` before the partition number.
pub open spec fn boot_partition_of(disk: Seq<char>) -> Seq<char> {
    if disk.len() > 0 && is_digit(disk.last()) {
        disk + seq!['p', '1']
    } else {
        disk + seq!['1']
    }
}

/// Derives the boot partition's device node from the whole-disk path.
pub fn get_boot_partition(device_path: &str) -> (r: String)
    ensures
        r@ == boot_partition_of(device_path@),
{
    let n = device_path.unicode_len();
    let numbered = n > 0 && {
        let c = device_path.get_char(n - 1);
        '0' <= c && c <= '9'
    };
    let base = String::from_str(device_path);
    if numbered {
        proof {
            reveal_strlit("p1");
        }
        base.concat("p1")
    } else {
        proof {
            reveal_strlit("1");
        }
        base.concat("1")
    }
}

/// `s` with every non-overlapping occurrence of the non-empty `from`,
/// leftmost first, replaced by `to`.
pub open spec fn replaced(s: Seq<char>, from: Seq<char>, to: Seq<char>) -> Seq<char>
    decreases s.len(),
{
    if s.len() == 0 || from.len() == 0 {
        s
    } else if from.len() <= s.len() && s.take(from.len() as int) == from {
        to + replaced(s.skip(from.len() as int), from, to)
    } else {
        seq![s[0]] + replaced(s.drop_first(), from, to)
    }
}

/// Relies on `str::replace`: replaces all matches of `from`, scanning from
/// the left without overlap.
#[verifier::external_body]
fn replace_all(s: &str, from: &str, to: &str) -> (r: String)
    requires
        from@.len() > 0,
    ensures
        r@ == replaced(s@, from@, to@),
{
    s.replace(from, to)
}

/// The characters with the Unicode `White_Space` property.
pub open spec fn is_white_space(c: char) -> bool {
    ('\u{9}' <= c && c <= '\u{d}') || c == ' ' || c == '\u{85}' || c == '\u{a0}' || c
        == '\u{1680}' || ('\u{2000}' <= c && c <= '\u{200a}') || c == '\u{2028}' || c
        == '\u{2029}' || c == '\u{202f}' || c == '\u{205f}' || c == '\u{3000}'
}

/// `s` without its leading white space.
pub open spec fn trim_start(s: Seq<char>) -> Seq<char>
    decreases s.len(),
{
    if s.len() > 0 && is_white_space(s[0]) {
        trim_start(s.drop_first())
    } else {
        s
    }
}

/// `s` without its trailing white space.
pub open spec fn trim_end(s: Seq<char>) -> Seq<char>
    decreases s.len(),
{
    if s.len() > 0 && is_white_space(s.last()) {
        trim_end(s.drop_last())
    } else {
        s
    }
}

/// `s` without leading and trailing white space.
pub open spec fn trimmed(s: Seq<char>) -> Seq<char> {
    trim_end(trim_start(s))
}

/// Relies on `str::trim`: removes leading and trailing characters with the
/// Unicode `White_Space` property.
#[verifier::external_body]
fn trim(s: &str) -> (r: String)
    ensures
        r@ == trimmed(s@),
{
    s.trim().to_string()
}

pub const RUN_ARG: &'static str = " systemd.run=/boot/firstrun.sh";

pub const SUCCESS_ARG: &'static str = " systemd.run_success_action=reboot";

pub const UNIT_ARG: &'static str = " systemd.unit=kernel-command-line.target";

/// Name of the first-boot script on the boot volume.
pub const SCRIPT_NAME: &'static str = "firstrun.sh";

/// Name of the boot-argument file on the boot volume.
pub const CMDLINE_NAME: &'static str = "cmdline.txt";

/// The boot arguments `old` without earlier first-boot entries, trimmed, on
/// one line, with the entries that run the script once and then reboot.
pub open spec fn cmdline_with_firstrun(old: Seq<char>) -> Seq<char> {
    trimmed(replaced(replaced(replaced(old, RUN_ARG@, Seq::empty()), SUCCESS_ARG@, Seq::empty()),
    UNIT_ARG@, Seq::empty())) + RUN_ARG@ + SUCCESS_ARG@ + UNIT_ARG@
}

/// Rewrites the boot-argument file's text so that the next boot runs the
/// first-boot script; the script itself strips these entries again.
pub fn rewrite_cmdline(old: &str) -> (r: String)
    ensures
        r@ == cmdline_with_firstrun(old@),
{
    proof {
        reveal_strlit(" systemd.run=/boot/firstrun.sh");
        reveal_strlit(" systemd.run_success_action=reboot");
        reveal_strlit(" systemd.unit=kernel-command-line.target");
    }
    let a = replace_all(old, RUN_ARG, "");
    let b = replace_all(a.as_str(), SUCCESS_ARG, "");
    let c = replace_all(b.as_str(), UNIT_ARG, "");
    let mut r = trim(c.as_str());
    push_str(&mut r, RUN_ARG);
    push_str(&mut r, SUCCESS_ARG);
    push_str(&mut r, UNIT_ARG);
    proof {
        reveal_strlit("");
        assert(""@ =~= Seq::<char>::empty());
    }
    r
}

} // verus!
