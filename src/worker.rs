//! The protocol between the unprivileged supervisor and the elevated
//! worker: the worker's command line, the settings blob it carries, and the
//! relay of the worker's event stream.

use vstd::prelude::*;
use vstd::string::*;
use crate::engine::{is_terminal, TransferEvent};
use crate::text::{
    opt_string_view, decimal_of, decimal_text, lemma_decimal_round_trip, parse_u64, parsed_u64, str_eq,
};
use base64::Engine;

verus! {

/// What the supervisor hands the worker for one write attempt.
#[derive(Debug)]
pub struct WorkerInvocation {
    pub device_path: String,
    pub image_url: String,
    pub expected_size: Option<u64>,
    pub expected_sha256: Option<String>,
    /// The settings, serialized and then base64-encoded; empty for defaults.
    pub options_blob: String,
}

/// A worker command line that cannot be acted on.
#[derive(Debug, Clone, Copy, PartialEq, Eq, Structural)]
pub enum ProtocolError {
    MissingImage,
    MissingDevice,
    /// A `--size` value is not a decimal number that fits 64 bits.
    BadSize,
    /// The `--options` blob is not empty and not base64.
    BadOptions,
}

pub const WORKER_FLAG: &'static str = "--worker";

pub const DEVICE_FLAG: &'static str = "--device";

pub const IMAGE_FLAG: &'static str = "--image";

pub const SIZE_FLAG: &'static str = "--size";

pub const SHA256_FLAG: &'static str = "--sha256";

pub const OPTIONS_FLAG: &'static str = "--options";

/// What a scan of the worker's arguments has found so far.
pub struct ArgScan {
    pub image: Seq<char>,
    pub device: Seq<char>,
    pub sha256: Option<Seq<char>>,
    pub size: Option<u64>,
    /// Whether some `--size` value was not a decimal number.
    pub bad_size: bool,
    pub options: Seq<char>,
}

pub open spec fn empty_scan() -> ArgScan {
    ArgScan {
        image: Seq::empty(),
        device: Seq::empty(),
        sha256: None,
        size: None,
        bad_size: false,
        options: Seq::empty(),
    }
}

/// Scans `args` from `i`: a known flag takes the next argument as its value
/// (a later flag overrides an earlier one), anything else is skipped.
pub open spec fn scan_args(args: Seq<Seq<char>>, i: int, st: ArgScan) -> ArgScan
    decreases args.len() - i,
{
    if i < 0 || i >= args.len() {
        st
    } else if i + 1 >= args.len() {
        st
    } else if args[i] == IMAGE_FLAG@ {
        scan_args(args, i + 2, ArgScan { image: args[i + 1], ..st })
    } else if args[i] == DEVICE_FLAG@ {
        scan_args(args, i + 2, ArgScan { device: args[i + 1], ..st })
    } else if args[i] == SHA256_FLAG@ {
        scan_args(args, i + 2, ArgScan { sha256: Some(args[i + 1]), ..st })
    } else if args[i] == SIZE_FLAG@ {
        scan_args(
            args,
            i + 2,
            ArgScan {
                size: parsed_u64(args[i + 1]),
                bad_size: st.bad_size || parsed_u64(args[i + 1]) is None,
                ..st
            },
        )
    } else if args[i] == OPTIONS_FLAG@ {
        scan_args(args, i + 2, ArgScan { options: args[i + 1], ..st })
    } else {
        scan_args(args, i + 1, st)
    }
}

pub open spec fn args_view(args: Seq<String>) -> Seq<Seq<char>> {
    args.map_values(|a: String| a@)
}

/// Whether `inv` holds what the scan `st` found.
pub open spec fn holds_scan(inv: WorkerInvocation, st: ArgScan) -> bool {
    &&& inv.image_url@ == st.image
    &&& inv.device_path@ == st.device
    &&& opt_string_view(inv.expected_sha256) == st.sha256
    &&& inv.expected_size == st.size
    &&& inv.options_blob@ == st.options
}

/// What is wrong with a scanned command line, first found first: no
/// image, no device, a size that is no number, a blob that is not base64.
pub open spec fn scan_error(st: ArgScan) -> Option<ProtocolError> {
    if st.image.len() == 0 {
        Some(ProtocolError::MissingImage)
    } else if st.device.len() == 0 {
        Some(ProtocolError::MissingDevice)
    } else if st.bad_size {
        Some(ProtocolError::BadSize)
    } else if st.options.len() > 0 && base64_decoded(st.options) is None {
        Some(ProtocolError::BadOptions)
    } else {
        None
    }
}

/// Reads the worker's command line: an image and a device are required,
/// and a malformed size or settings blob is refused.
pub fn parse_worker_args(args: &Vec<String>) -> (r: Result<WorkerInvocation, ProtocolError>)
    ensures
        ({
            let st = scan_args(args_view(args@), 0, empty_scan());
            match scan_error(st) {
                Some(e) => r == Err::<WorkerInvocation, ProtocolError>(e),
                None => r matches Ok(inv) && holds_scan(inv, st),
            }
        }),
{
    let ghost v = args_view(args@);
    let n = args.len();
    let mut image = String::new();
    let mut device = String::new();
    let mut sha256: Option<String> = None;
    let mut size: Option<u64> = None;
    let mut bad_size = false;
    let mut options = String::new();
    let mut i: usize = 0;
    while i < n
        invariant
            n == args@.len(),
            v == args_view(args@),
            i <= n,
            scan_args(v, 0, empty_scan()) == scan_args(
                v,
                i as int,
                ArgScan {
                    image: image@,
                    device: device@,
                    sha256: opt_string_view(sha256),
                    size,
                    bad_size,
                    options: options@,
                },
            ),
        decreases n - i,
    {
        if i + 1 >= n {
            i = n;
        } else {
            let a = args[i].as_str();
            let value = &args[i + 1];
            assert(v[i as int] == a@ && v[i + 1] == value@);
            if str_eq(a, IMAGE_FLAG) {
                image = value.clone();
                i = i + 2;
            } else if str_eq(a, DEVICE_FLAG) {
                device = value.clone();
                i = i + 2;
            } else if str_eq(a, SHA256_FLAG) {
                sha256 = Some(value.clone());
                i = i + 2;
            } else if str_eq(a, SIZE_FLAG) {
                size = parse_u64(value.as_str());
                bad_size = bad_size || size.is_none();
                i = i + 2;
            } else if str_eq(a, OPTIONS_FLAG) {
                options = value.clone();
                i = i + 2;
            } else {
                i = i + 1;
            }
        }
    }
    if image.as_str().is_empty() {
        return Err(ProtocolError::MissingImage);
    }
    if device.as_str().is_empty() {
        return Err(ProtocolError::MissingDevice);
    }
    if bad_size {
        return Err(ProtocolError::BadSize);
    }
    if !options.as_str().is_empty() {
        if base64_decode(options.as_str()).is_none() {
            return Err(ProtocolError::BadOptions);
        }
    }
    Ok(
        WorkerInvocation {
            device_path: device,
            image_url: image,
            expected_size: size,
            expected_sha256: sha256,
            options_blob: options,
        },
    )
}

/// The worker's command line for `inv`: device, image, the expected size
/// and hash when known, and the settings blob, each after its flag.
pub open spec fn invocation_args(inv: WorkerInvocation) -> Seq<Seq<char>> {
    seq![WORKER_FLAG@, DEVICE_FLAG@, inv.device_path@, IMAGE_FLAG@, inv.image_url@] + size_args(
        inv.expected_size,
    ) + sha256_args(opt_string_view(inv.expected_sha256)) + seq![OPTIONS_FLAG@, inv.options_blob@]
}

pub open spec fn size_args(size: Option<u64>) -> Seq<Seq<char>> {
    match size {
        Some(n) => seq![SIZE_FLAG@, decimal_of(n as nat)],
        None => Seq::empty(),
    }
}

pub open spec fn sha256_args(hash: Option<Seq<char>>) -> Seq<Seq<char>> {
    match hash {
        Some(h) => seq![SHA256_FLAG@, h],
        None => Seq::empty(),
    }
}

/// Builds the worker's command line.
pub fn worker_args(inv: &WorkerInvocation) -> (r: Vec<String>)
    ensures
        args_view(r@) == invocation_args(*inv),
{
    let mut r: Vec<String> = Vec::new();
    r.push(String::from_str(WORKER_FLAG));
    r.push(String::from_str(DEVICE_FLAG));
    r.push(inv.device_path.clone());
    r.push(String::from_str(IMAGE_FLAG));
    r.push(inv.image_url.clone());
    let ghost head = args_view(r@);
    match inv.expected_size {
        Some(n) => {
            r.push(String::from_str(SIZE_FLAG));
            r.push(decimal_text(n));
        },
        None => {},
    }
    let ghost with_size = args_view(r@);
    match &inv.expected_sha256 {
        Some(h) => {
            r.push(String::from_str(SHA256_FLAG));
            r.push(h.clone());
        },
        None => {},
    }
    let ghost with_hash = args_view(r@);
    r.push(String::from_str(OPTIONS_FLAG));
    r.push(inv.options_blob.clone());
    proof {
        let size_part = size_args(inv.expected_size);
        let hash_part = sha256_args(opt_string_view(inv.expected_sha256));
        assert(head =~= seq![WORKER_FLAG@, DEVICE_FLAG@, inv.device_path@, IMAGE_FLAG@, inv.image_url@]);
        assert(with_size =~= head + size_part);
        assert(with_hash =~= head + size_part + hash_part);
        assert(args_view(r@) =~= head + size_part + hash_part + seq![OPTIONS_FLAG@, inv.options_blob@]);
    }
    r
}

/// What a scan of the command line of `inv` finds: exactly the values of
/// `inv`, so the worker reads back what the supervisor sent; it accepts it
/// when the image and device are not empty and the blob is empty or base64,
/// as it is for an invocation made by `WorkerInvocation::new`.
pub proof fn lemma_invocation_round_trip(inv: WorkerInvocation)
    ensures
        scan_args(invocation_args(inv), 0, empty_scan()) == (ArgScan {
            image: inv.image_url@,
            device: inv.device_path@,
            sha256: opt_string_view(inv.expected_sha256),
            size: inv.expected_size,
            bad_size: false,
            options: inv.options_blob@,
        }),
{
    reveal_strlit("--worker");
    reveal_strlit("--device");
    reveal_strlit("--image");
    reveal_strlit("--size");
    reveal_strlit("--sha256");
    reveal_strlit("--options");
    let args = invocation_args(inv);
    let head = seq![WORKER_FLAG@, DEVICE_FLAG@, inv.device_path@, IMAGE_FLAG@, inv.image_url@];
    let sz = size_args(inv.expected_size);
    let sh = sha256_args(opt_string_view(inv.expected_sha256));
    let tail = seq![OPTIONS_FLAG@, inv.options_blob@];
    assert(WORKER_FLAG@ != IMAGE_FLAG@ && WORKER_FLAG@ != DEVICE_FLAG@ && WORKER_FLAG@
        != SHA256_FLAG@ && WORKER_FLAG@ != SIZE_FLAG@ && WORKER_FLAG@ != OPTIONS_FLAG@) by {
        assert(WORKER_FLAG@[2] != DEVICE_FLAG@[2]);
        assert(WORKER_FLAG@[2] != SHA256_FLAG@[2]);
        assert(WORKER_FLAG@.len() != IMAGE_FLAG@.len());
        assert(WORKER_FLAG@.len() != SIZE_FLAG@.len());
        assert(WORKER_FLAG@.len() != OPTIONS_FLAG@.len());
    }
    assert(DEVICE_FLAG@ != IMAGE_FLAG@) by {
        assert(DEVICE_FLAG@.len() != IMAGE_FLAG@.len());
    }
    assert(SHA256_FLAG@ != IMAGE_FLAG@ && SHA256_FLAG@ != DEVICE_FLAG@) by {
        assert(SHA256_FLAG@.len() != IMAGE_FLAG@.len());
        assert(SHA256_FLAG@[2] != DEVICE_FLAG@[2]);
    }
    assert(SIZE_FLAG@ != IMAGE_FLAG@ && SIZE_FLAG@ != DEVICE_FLAG@ && SIZE_FLAG@ != SHA256_FLAG@)
        by {
        assert(SIZE_FLAG@.len() != IMAGE_FLAG@.len());
        assert(SIZE_FLAG@.len() != DEVICE_FLAG@.len());
        assert(SIZE_FLAG@.len() != SHA256_FLAG@.len());
    }
    assert(OPTIONS_FLAG@ != IMAGE_FLAG@ && OPTIONS_FLAG@ != DEVICE_FLAG@ && OPTIONS_FLAG@
        != SHA256_FLAG@ && OPTIONS_FLAG@ != SIZE_FLAG@) by {
        assert(OPTIONS_FLAG@.len() != IMAGE_FLAG@.len());
        assert(OPTIONS_FLAG@.len() != DEVICE_FLAG@.len());
        assert(OPTIONS_FLAG@.len() != SHA256_FLAG@.len());
        assert(OPTIONS_FLAG@.len() != SIZE_FLAG@.len());
    }
    assert(args =~= head + sz + sh + tail);
    let n = args.len() as int;
    let s0 = empty_scan();
    let s1 = ArgScan { device: inv.device_path@, ..s0 };
    let s2 = ArgScan { image: inv.image_url@, ..s1 };
    assert(args[0] == WORKER_FLAG@ && args[1] == DEVICE_FLAG@ && args[2] == inv.device_path@);
    assert(args[3] == IMAGE_FLAG@ && args[4] == inv.image_url@);
    assert(scan_args(args, 0, s0) == scan_args(args, 1, s0));
    assert(scan_args(args, 1, s0) == scan_args(args, 3, s1));
    assert(scan_args(args, 3, s1) == scan_args(args, 5, s2));
    let s3 = ArgScan { size: inv.expected_size, ..s2 };
    let k3: int = 5 + sz.len() as int;
    match inv.expected_size {
        Some(v) => {
            lemma_decimal_round_trip(v);
            assert(args[5] == SIZE_FLAG@ && args[6] == decimal_of(v as nat));
            assert(scan_args(args, 5, s2) == scan_args(args, 7, s3));
        },
        None => {
            assert(s3 == s2);
        },
    }
    let s4 = ArgScan { sha256: opt_string_view(inv.expected_sha256), ..s3 };
    let k4: int = k3 + sh.len() as int;
    match inv.expected_sha256 {
        Some(h) => {
            assert(args[k3] == SHA256_FLAG@ && args[k3 + 1] == h@);
            assert(scan_args(args, k3, s3) == scan_args(args, k3 + 2, s4));
        },
        None => {
            assert(s4 == s3);
        },
    }
    let s5 = ArgScan { options: inv.options_blob@, ..s4 };
    assert(args[k4] == OPTIONS_FLAG@ && args[k4 + 1] == inv.options_blob@);
    assert(k4 + 2 == n);
    assert(scan_args(args, k4, s4) == scan_args(args, n, s5));
}

/// What the base64 engine (standard alphabet, padded) decodes a text to,
/// or nothing where the text is not valid base64.
pub uninterp spec fn base64_decoded(s: Seq<char>) -> Option<Seq<u8>>;

/// What the base64 engine (standard alphabet, padded) encodes bytes to.
pub uninterp spec fn base64_of(b: Seq<u8>) -> Seq<char>;

/// Relies on `base64::engine::general_purpose::STANDARD.decode`.
#[verifier::external_body]
fn base64_decode(s: &str) -> (r: Option<Vec<u8>>)
    ensures
        match r {
            Some(v) => base64_decoded(s@) == Some(v@),
            None => base64_decoded(s@) is None,
        },
{
    base64::engine::general_purpose::STANDARD.decode(s).ok()
}

/// Relies on `base64::engine::general_purpose::STANDARD.encode`: the
/// encoding is empty only for no bytes, and decoding it gives the bytes back.
#[verifier::external_body]
fn base64_encode(b: &[u8]) -> (r: String)
    ensures
        r@ == base64_of(b@),
        r@.len() == 0 <==> b@.len() == 0,
        base64_decoded(r@) == Some(b@),
{
    base64::engine::general_purpose::STANDARD.encode(b)
}

impl WorkerInvocation {
    /// The invocation that writes `image_url` onto `device_path`, carrying
    /// the serialized settings `settings` as base64 text.
    pub fn new(
        device_path: &str,
        image_url: &str,
        expected_size: Option<u64>,
        expected_sha256: Option<&str>,
        settings: &[u8],
    ) -> (r: Self)
        ensures
            r.device_path@ == device_path@,
            r.image_url@ == image_url@,
            r.expected_size == expected_size,
            opt_string_view(r.expected_sha256) == match expected_sha256 {
                Some(h) => Some(h@),
                None => None::<Seq<char>>,
            },
            r.options_blob@ == base64_of(settings@),
            r.options_blob@.len() == 0 <==> settings@.len() == 0,
            base64_decoded(r.options_blob@) == Some(settings@),
    {
        WorkerInvocation {
            device_path: String::from_str(device_path),
            image_url: String::from_str(image_url),
            expected_size,
            expected_sha256: match expected_sha256 {
                Some(h) => Some(String::from_str(h)),
                None => None,
            },
            options_blob: base64_encode(settings),
        }
    }

    /// The serialized settings carried by the invocation; nothing when the
    /// blob is empty or not base64, in which case the defaults apply.
    pub fn settings_bytes(&self) -> (r: Option<Vec<u8>>)
        ensures
            match r {
                Some(v) => self.options_blob@.len() > 0 && base64_decoded(self.options_blob@)
                    == Some(v@),
                None => self.options_blob@.len() == 0 || base64_decoded(self.options_blob@) is None,
            },
    {
        if self.options_blob.as_str().is_empty() {
            return None;
        }
        base64_decode(self.options_blob.as_str())
    }
}

/// The events a supervisor passes on from the worker's parsed output lines
/// (`None` for a line that did not parse): every parsed event in order, up
/// to and including the first terminal one.
pub open spec fn relayed(lines: Seq<Option<TransferEvent>>) -> Seq<TransferEvent>
    decreases lines.len(),
{
    if lines.len() == 0 {
        Seq::empty()
    } else {
        match lines[0] {
            None => relayed(lines.drop_first()),
            Some(e) => if is_terminal(e) {
                seq![e]
            } else {
                seq![e] + relayed(lines.drop_first())
            },
        }
    }
}

/// Whether the lines hold a terminal event.
pub open spec fn has_terminal(lines: Seq<Option<TransferEvent>>) -> bool {
    exists|i: int| 0 <= i < lines.len() && (#[trigger] lines[i] matches Some(e) && is_terminal(e))
}

/// One more line extends what is relayed by its event, unless a terminal
/// event came before it or the line did not parse.
pub proof fn lemma_relayed_push(lines: Seq<Option<TransferEvent>>, line: Option<TransferEvent>)
    ensures
        relayed(lines.push(line)) == if has_terminal(lines) {
            relayed(lines)
        } else {
            match line {
                Some(e) => relayed(lines).push(e),
                None => relayed(lines),
            }
        },
    decreases lines.len(),
{
    let l2 = lines.push(line);
    if lines.len() == 0 {
        assert(l2.drop_first() =~= Seq::<Option<TransferEvent>>::empty());
        assert(l2[0] == line);
        assert(relayed(l2.drop_first()) =~= Seq::<TransferEvent>::empty());
        assert(relayed(lines) =~= Seq::<TransferEvent>::empty());
        assert(!has_terminal(lines));
        match line {
            Some(e) => {
                assert(relayed(l2) =~= seq![e]) by {
                    if !is_terminal(e) {
                        assert(seq![e] + Seq::<TransferEvent>::empty() =~= seq![e]);
                    }
                }
                assert(relayed(lines).push(e) =~= seq![e]);
            },
            None => {},
        }
    } else {
        let rest = lines.drop_first();
        assert(l2.drop_first() =~= rest.push(line));
        assert(l2[0] == lines[0]);
        lemma_relayed_push(rest, line);
        if has_terminal(rest) {
            let i = choose|i: int| 0 <= i < rest.len() && (#[trigger] rest[i] matches Some(e) && is_terminal(e));
            assert(lines[i + 1] == rest[i]);
            assert(has_terminal(lines));
        }
        match lines[0] {
            None => {
                if has_terminal(lines) {
                    let i = choose|i: int| 0 <= i < lines.len() && (#[trigger] lines[i] matches Some(e) && is_terminal(e));
                    assert(rest[i - 1] == lines[i]);
                }
                match line {
                    Some(e) => {},
                    None => {},
                }
            },
            Some(e0) => {
                if is_terminal(e0) {
                    assert(has_terminal(lines)) by {
                        assert(lines[0] matches Some(e) && is_terminal(e));
                    }
                } else {
                    if has_terminal(lines) {
                        let i = choose|i: int| 0 <= i < lines.len() && (#[trigger] lines[i] matches Some(e) && is_terminal(e));
                        assert(rest[i - 1] == lines[i]);
                    }
                    match line {
                        Some(e) => {
                            if !has_terminal(lines) {
                                assert(seq![e0] + relayed(rest).push(e) =~= (seq![e0] + relayed(
                                    rest,
                                )).push(e));
                            }
                        },
                        None => {},
                    }
                }
            },
        }
    }
}

/// A line that did not parse changes nothing: what is relayed from the
/// lines around it is what is relayed from those lines alone, in order.
pub proof fn lemma_unparsed_line_skipped(
    before: Seq<Option<TransferEvent>>,
    after: Seq<Option<TransferEvent>>,
)
    ensures
        relayed(before + seq![None] + after) == relayed(before + after),
    decreases before.len(),
{
    let with = before + seq![None] + after;
    let without = before + after;
    if before.len() == 0 {
        assert(with.drop_first() =~= after);
        assert(without =~= after);
    } else {
        lemma_unparsed_line_skipped(before.drop_first(), after);
        assert(with[0] == before[0]);
        assert(without[0] == before[0]);
        assert(with.drop_first() =~= before.drop_first() + seq![None] + after);
        assert(without.drop_first() =~= before.drop_first() + after);
    }
}

/// The supervisor's side of the worker's output: passes parsed events on,
/// skips lines that did not parse, and stops after a terminal event.
pub struct Relay {
    closed: bool,
    seen: Ghost<Seq<Option<TransferEvent>>>,
    out: Ghost<Seq<TransferEvent>>,
}

pub const WORKER_DIED: &'static str = "The worker stopped without reporting an outcome";

impl Relay {
    /// The parsed lines seen so far.
    pub closed spec fn lines(&self) -> Seq<Option<TransferEvent>> {
        self.seen@
    }

    /// The events passed on so far.
    pub closed spec fn passed(&self) -> Seq<TransferEvent> {
        self.out@
    }

    pub closed spec fn wf(&self) -> bool {
        &&& self.out@ == relayed(self.seen@)
        &&& self.closed == has_terminal(self.seen@)
    }

    pub fn new() -> (r: Self)
        ensures
            r.wf(),
            r.lines().len() == 0,
            r.passed().len() == 0,
    {
        Relay { closed: false, seen: Ghost(Seq::empty()), out: Ghost(Seq::empty()) }
    }

    /// Whether a terminal event has been passed on.
    pub fn is_closed(&self) -> (r: bool)
        requires
            self.wf(),
        ensures
            r == has_terminal(self.lines()),
    {
        self.closed
    }

    /// Takes the next line, parsed (`None` when it did not parse), and gives
    /// the event to pass on, if any.
    pub fn accept(&mut self, line: Option<TransferEvent>) -> (r: Option<TransferEvent>)
        requires
            old(self).wf(),
        ensures
            final(self).wf(),
            final(self).lines() == old(self).lines().push(line),
            final(self).passed() == match r {
                Some(e) => old(self).passed().push(e),
                None => old(self).passed(),
            },
            final(self).passed() == relayed(final(self).lines()),
    {
        proof {
            lemma_relayed_push(self.seen@, line);
        }
        let ghost old_seen = self.seen@;
        self.seen = Ghost(self.seen@.push(line));
        if self.closed {
            proof {
                let i = choose|i: int| 0 <= i < old_seen.len() && (#[trigger] old_seen[i] matches Some(e) && is_terminal(e));
                assert(self.seen@[i] == old_seen[i]);
            }
            return None;
        }
        match line {
            None => {
                proof {
                    if has_terminal(self.seen@) {
                        let i = choose|i: int| 0 <= i < self.seen@.len() && (#[trigger] self.seen@[i] matches Some(e) && is_terminal(e));
                        assert(old_seen[i] == self.seen@[i]);
                    }
                }
                None
            },
            Some(e) => {
                let terminal = match &e {
                    TransferEvent::Finished => true,
                    TransferEvent::Error(_) => true,
                    _ => false,
                };
                proof {
                    let last = self.seen@.len() - 1;
                    if terminal {
                        assert(self.seen@[last] matches Some(x) && is_terminal(x));
                    } else if has_terminal(self.seen@) {
                        let i = choose|i: int| 0 <= i < self.seen@.len() && (#[trigger] self.seen@[i] matches Some(e) && is_terminal(e));
                        assert(old_seen[i] == self.seen@[i]);
                    }
                    self.out@ = self.out@.push(e);
                }
                self.closed = terminal;
                Some(e)
            },
        }
    }

    /// The worker's process ended: unless a terminal event was passed on,
    /// the run failed, and the returned event says so.
    pub fn worker_exited(&self) -> (r: Option<TransferEvent>)
        requires
            self.wf(),
        ensures
            has_terminal(self.lines()) ==> r is None,
            !has_terminal(self.lines()) ==> (r matches Some(TransferEvent::Error(m)) && m@ == WORKER_DIED@),
    {
        if self.closed {
            None
        } else {
            Some(TransferEvent::Error(String::from_str(WORKER_DIED)))
        }
    }
}

/// Where the worker process stands.
#[derive(Debug, Clone, Copy, PartialEq, Eq, Structural)]
pub enum WorkerStage {
    /// The transfer is running; its events are printed as they come.
    Transferring,
    /// The transfer finished; the first-boot settings are being installed.
    Installing,
    /// The process is to exit with this code.
    Exited(i32),
}

pub const TRANSFER_LOST: &'static str = "The transfer stopped without finishing";

/// Printing one more line after lines of which none is terminal leaves
/// only the new last line possibly terminal.
proof fn lemma_print_non_final(p: Seq<TransferEvent>, e: TransferEvent)
    requires
        forall|i: int| 0 <= i < p.len() ==> !is_terminal(#[trigger] p[i]),
    ensures
        forall|i: int| 0 <= i < p.push(e).len() - 1 ==> !is_terminal(#[trigger] p.push(e)[i]),
{
    assert forall|i: int| 0 <= i < p.push(e).len() - 1 implies !is_terminal(#[trigger] p.push(e)[i]) by {
        assert(p.push(e)[i] == p[i]);
    }
}

/// The worker's decisions: it prints the transfer's events, holds back
/// `Finished` until the boot volume has been provisioned, ends with exactly
/// one terminal line, and exits with 0 only after `Finished`.
pub struct WorkerSession {
    stage: WorkerStage,
    printed: Ghost<Seq<TransferEvent>>,
}

impl WorkerSession {
    pub closed spec fn stage(&self) -> WorkerStage {
        self.stage
    }

    /// The lines printed so far.
    pub closed spec fn printed(&self) -> Seq<TransferEvent> {
        self.printed@
    }

    /// Only the last printed line can be terminal; an exited worker printed
    /// one, `Finished` exactly when its exit code is 0.
    pub closed spec fn wf(&self) -> bool {
        let p = self.printed@;
        &&& forall|i: int| 0 <= i < p.len() - 1 ==> !is_terminal(#[trigger] p[i])
        &&& match self.stage {
            WorkerStage::Exited(code) => p.len() > 0 && is_terminal(p.last()) && (code == 0
                <==> p.last() is Finished),
            _ => p.len() == 0 || !is_terminal(p.last()),
        }
    }

    pub fn new() -> (r: Self)
        ensures
            r.wf(),
            r.stage() == WorkerStage::Transferring,
            r.printed().len() == 0,
    {
        WorkerSession { stage: WorkerStage::Transferring, printed: Ghost(Seq::empty()) }
    }

    pub fn current_stage(&self) -> (r: WorkerStage)
        ensures
            r == self.stage(),
    {
        self.stage
    }

    /// An event of the transfer: the line to print, if any. `Finished` is
    /// held back and starts the installation; an error is printed and ends
    /// the worker with code 1.
    pub fn on_transfer_event(&mut self, e: TransferEvent) -> (r: Option<TransferEvent>)
        requires
            old(self).wf(),
        ensures
            final(self).wf(),
            final(self).printed() == match r {
                Some(x) => old(self).printed().push(x),
                None => old(self).printed(),
            },
            old(self).stage() == WorkerStage::Transferring ==> match e {
                TransferEvent::Finished => r is None && final(self).stage()
                    == WorkerStage::Installing,
                TransferEvent::Error(m) => r == Some(TransferEvent::Error(m)) && final(self).stage()
                    == WorkerStage::Exited(1),
                _ => r == Some(e) && final(self).stage() == WorkerStage::Transferring,
            },
            old(self).stage() != WorkerStage::Transferring ==> r is None && final(self).stage()
                == old(self).stage(),
    {
        if self.stage != WorkerStage::Transferring {
            return None;
        }
        let ghost old_p = self.printed@;
        match e {
            TransferEvent::Finished => {
                self.stage = WorkerStage::Installing;
                None
            },
            TransferEvent::Error(m) => {
                let ev = TransferEvent::Error(m);
                proof {
                    lemma_print_non_final(old_p, ev);
                    self.printed@ = old_p.push(ev);
                }
                self.stage = WorkerStage::Exited(1);
                Some(ev)
            },
            other => {
                proof {
                    lemma_print_non_final(old_p, other);
                    self.printed@ = old_p.push(other);
                }
                Some(other)
            },
        }
    }

    /// The transfer ended without a terminal event: the worker reports it
    /// and ends with code 1.
    pub fn on_transfer_lost(&mut self) -> (r: Option<TransferEvent>)
        requires
            old(self).wf(),
        ensures
            final(self).wf(),
            final(self).printed() == match r {
                Some(x) => old(self).printed().push(x),
                None => old(self).printed(),
            },
            old(self).stage() == WorkerStage::Transferring ==> (r matches Some(
                TransferEvent::Error(m),
            ) && m@ == TRANSFER_LOST@) && final(self).stage() == WorkerStage::Exited(1),
            old(self).stage() != WorkerStage::Transferring ==> r is None && final(self).stage()
                == old(self).stage(),
    {
        if self.stage != WorkerStage::Transferring {
            return None;
        }
        let ev = TransferEvent::Error(String::from_str(TRANSFER_LOST));
        proof {
            let old_p = self.printed@;
            lemma_print_non_final(old_p, ev);
            self.printed@ = old_p.push(ev);
        }
        self.stage = WorkerStage::Exited(1);
        Some(ev)
    }

    /// The installer is done: `Finished` and code 0 when it succeeded, its
    /// message as the error and code 1 when it failed.
    pub fn on_install(&mut self, result: Result<(), String>) -> (r: Option<TransferEvent>)
        requires
            old(self).wf(),
        ensures
            final(self).wf(),
            final(self).printed() == match r {
                Some(x) => old(self).printed().push(x),
                None => old(self).printed(),
            },
            old(self).stage() == WorkerStage::Installing ==> match result {
                Ok(()) => r == Some(TransferEvent::Finished) && final(self).stage()
                    == WorkerStage::Exited(0),
                Err(m) => r == Some(TransferEvent::Error(m)) && final(self).stage()
                    == WorkerStage::Exited(1),
            },
            old(self).stage() != WorkerStage::Installing ==> r is None && final(self).stage()
                == old(self).stage(),
    {
        if self.stage != WorkerStage::Installing {
            return None;
        }
        let (ev, code) = match result {
            Ok(()) => (TransferEvent::Finished, 0i32),
            Err(m) => (TransferEvent::Error(m), 1i32),
        };
        proof {
            let old_p = self.printed@;
            lemma_print_non_final(old_p, ev);
            self.printed@ = old_p.push(ev);
        }
        self.stage = WorkerStage::Exited(code);
        Some(ev)
    }

    /// What the worker has printed ends well: at most one terminal line, the
    /// last one, and exit code 0 exactly when that line is `Finished`.
    pub proof fn lemma_output_order(&self)
        requires
            self.wf(),
        ensures
            forall|i: int|
                0 <= i < self.printed().len() - 1 ==> !is_terminal(#[trigger] self.printed()[i]),
            self.stage() matches WorkerStage::Exited(code) ==> self.printed().len() > 0
                && is_terminal(self.printed().last()) && (code == 0 <==> self.printed().last() is Finished),
    {
    }
}

} // verus!
