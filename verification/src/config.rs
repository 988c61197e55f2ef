//! The boot configuration file.
//!
//! The file is UTF-8 text of `key=value` lines. Blank lines and lines
//! starting with `#` are ignored; so are unknown keys (with a warning at the
//! boot shell). Numeric values are decimal unless prefixed `0x`, in which
//! case the digits after the prefix are hexadecimal; a value that does not
//! parse leaves the field at its default. `print` writes a configuration
//! back out in exactly this form.

use vstd::prelude::*;
use vstd::slice::slice_subrange;
use vstd::string::StrSliceExecFns;
use vstd::string::StringSliceAdditionalSpecFns;

verus! {

/// What the bootloader reads from `\EFI\BOOT\boot.conf`.
#[derive(Debug)]
pub struct Config {
    /// Virtual address the kernel stack is placed at.
    pub kernel_stack_address: u64,
    /// Whether (nonzero) the kernel stack may grow automatically.
    pub kernel_stack_auto_grow: u64,
    /// Kernel stack size in 4 KiB pages.
    pub kernel_stack_size: u64,
    /// Virtual offset at which all physical memory is mapped.
    pub physical_memory_offset: u64,
    /// Path of the kernel ELF on the firmware filesystem (UTF-8 bytes).
    pub kernel_path: Vec<u8>,
    /// Kernel command line (UTF-8 bytes).
    pub cmdline: Vec<u8>,
    /// Whether to load applications into memory at boot.
    pub load_apps: bool,
}

/// The spec-level image of a configuration, with byte sequences for the
/// string fields.
pub struct SpecConfig {
    pub kernel_stack_address: u64,
    pub kernel_stack_auto_grow: u64,
    pub kernel_stack_size: u64,
    pub physical_memory_offset: u64,
    pub kernel_path: Seq<u8>,
    pub cmdline: Seq<u8>,
    pub load_apps: bool,
}

impl View for Config {
    type V = SpecConfig;

    open spec fn view(&self) -> SpecConfig {
        SpecConfig {
            kernel_stack_address: self.kernel_stack_address,
            kernel_stack_auto_grow: self.kernel_stack_auto_grow,
            kernel_stack_size: self.kernel_stack_size,
            physical_memory_offset: self.physical_memory_offset,
            kernel_path: self.kernel_path@,
            cmdline: self.cmdline@,
            load_apps: self.load_apps,
        }
    }
}

impl PartialEq for Config {
    fn eq(&self, other: &Config) -> (r: bool) {
        let r = self.kernel_stack_address == other.kernel_stack_address
            && self.kernel_stack_auto_grow == other.kernel_stack_auto_grow
            && self.kernel_stack_size == other.kernel_stack_size
            && self.physical_memory_offset == other.physical_memory_offset
            && bytes_eq(self.kernel_path.as_slice(), other.kernel_path.as_slice())
            && bytes_eq(self.cmdline.as_slice(), other.cmdline.as_slice())
            && self.load_apps == other.load_apps;
        proof {
            if r {
                assert(self@ =~= other@);
            }
        }
        r
    }
}

impl vstd::std_specs::cmp::PartialEqSpecImpl for Config {
    open spec fn obeys_eq_spec() -> bool {
        true
    }

    open spec fn eq_spec(&self, other: &Config) -> bool {
        self@ =~= other@
    }
}

/// Whether `b` is ASCII whitespace, as line trimming removes it.
pub open spec fn spec_is_space(b: u8) -> bool {
    b == 32 || (9 <= b && b <= 13)
}

fn is_space(b: u8) -> (r: bool)
    ensures
        r == spec_is_space(b),
{
    b == 32 || (9 <= b && b <= 13)
}

/// `s` without leading whitespace.
pub open spec fn spec_trim_front(s: Seq<u8>) -> Seq<u8>
    decreases s.len(),
{
    if s.len() == 0 {
        s
    } else if spec_is_space(s[0]) {
        spec_trim_front(s.drop_first())
    } else {
        s
    }
}

/// `s` without trailing whitespace.
pub open spec fn spec_trim_back(s: Seq<u8>) -> Seq<u8>
    decreases s.len(),
{
    if s.len() == 0 {
        s
    } else if spec_is_space(s.last()) {
        spec_trim_back(s.drop_last())
    } else {
        s
    }
}

/// `s` without leading and trailing whitespace.
pub open spec fn spec_trim(s: Seq<u8>) -> Seq<u8> {
    spec_trim_back(spec_trim_front(s))
}

proof fn lemma_trim_front_skip(s: Seq<u8>, i: int)
    requires
        0 <= i <= s.len(),
        forall|j: int| 0 <= j < i ==> spec_is_space(#[trigger] s[j]),
        i < s.len() ==> !spec_is_space(s[i]),
    ensures
        spec_trim_front(s) == s.skip(i),
    decreases i,
{
    if i == 0 {
        assert(s.skip(0) =~= s);
    } else {
        assert(spec_is_space(s[0]));
        assert(s.drop_first() =~= s.skip(1));
        lemma_trim_front_skip(s.drop_first(), i - 1);
        assert(s.drop_first().skip(i - 1) =~= s.skip(i));
    }
}

proof fn lemma_trim_back_take(s: Seq<u8>, k: int)
    requires
        0 <= k <= s.len(),
        forall|j: int| k <= j < s.len() ==> spec_is_space(#[trigger] s[j]),
        k > 0 ==> !spec_is_space(s[k - 1]),
    ensures
        spec_trim_back(s) == s.take(k),
    decreases s.len() - k,
{
    if k == s.len() {
        assert(s.take(k) =~= s);
    } else {
        assert(spec_is_space(s.last()));
        assert(s.drop_last() =~= s.take(s.len() - 1));
        lemma_trim_back_take(s.take(s.len() - 1), k);
        assert(s.take(s.len() - 1).take(k) =~= s.take(k));
    }
}

/// The trimmed slice of `v`: `v@.subrange(r.0, r.1)` is `spec_trim(v@)`.
fn trim_range(v: &[u8]) -> (r: (usize, usize))
    ensures
        r.0 <= r.1 <= v@.len(),
        v@.subrange(r.0 as int, r.1 as int) == spec_trim(v@),
{
    let n = v.len();
    let mut start: usize = 0;
    while start < n && is_space(v[start])
        invariant
            start <= n,
            n == v@.len(),
            forall|j: int| 0 <= j < start ==> spec_is_space(#[trigger] v@[j]),
        decreases n - start,
    {
        start = start + 1;
    }
    proof {
        lemma_trim_front_skip(v@, start as int);
    }
    let mut end: usize = n;
    while end > start && is_space(v[end - 1])
        invariant
            start <= end <= n,
            n == v@.len(),
            forall|j: int| 0 <= j < start ==> spec_is_space(#[trigger] v@[j]),
            start < n ==> !spec_is_space(v@[start as int]),
            forall|j: int| end <= j < n ==> spec_is_space(#[trigger] v@[j]),
        decreases end,
    {
        end = end - 1;
    }
    proof {
        let front = v@.skip(start as int);
        assert forall|j: int| (end - start) <= j < front.len()
            implies spec_is_space(#[trigger] front[j]) by {
            assert(front[j] == v@[j + start]);
        }
        if end > start {
            assert(front[end - start - 1] == v@[end - 1]);
        }
        lemma_trim_back_take(front, end - start as int);
        assert(front.take(end - start as int) =~= v@.subrange(start as int, end as int));
    }
    (start, end)
}

/// Whether two byte slices hold the same bytes.
fn bytes_eq(a: &[u8], b: &[u8]) -> (r: bool)
    ensures
        r == (a@ == b@),
{
    if a.len() != b.len() {
        proof {
            assert(a@ != b@);
        }
        return false;
    }
    let n = a.len();
    let mut i: usize = 0;
    while i < n
        invariant
            i <= n,
            n == a@.len() == b@.len(),
            forall|j: int| 0 <= j < i ==> a@[j] == b@[j],
        decreases n - i,
    {
        if a[i] != b[i] {
            return false;
        }
        i = i + 1;
    }
    proof {
        assert(a@ =~= b@);
    }
    true
}

/// The numeric value of an ASCII digit in the given radix, if it is one.
pub open spec fn spec_digit(b: u8, radix: int) -> Option<int> {
    let v = if 48 <= b && b <= 57 {
        (b - 48) as int
    } else if 97 <= b && b <= 102 {
        (b - 87) as int
    } else if 65 <= b && b <= 70 {
        (b - 55) as int
    } else {
        radix
    };
    if v < radix {
        Some(v)
    } else {
        None
    }
}

/// Whether every byte of `s` is a digit in the radix.
pub open spec fn spec_all_digits(s: Seq<u8>, radix: int) -> bool {
    forall|i: int| 0 <= i < s.len() ==> spec_digit(#[trigger] s[i], radix) is Some
}

/// The value of an all-digit sequence in the radix.
pub open spec fn spec_digits_val(s: Seq<u8>, radix: int) -> int
    decreases s.len(),
{
    if s.len() == 0 {
        0
    } else {
        spec_digits_val(s.drop_last(), radix) * radix + spec_digit(s.last(), radix).unwrap_or(0)
    }
}

/// What parsing digits in the radix yields: the value, if the sequence is
/// nonempty, all digits, and the value fits in 64 bits.
pub open spec fn spec_parse_radix(s: Seq<u8>, radix: int) -> Option<u64> {
    if s.len() > 0 && spec_all_digits(s, radix) && spec_digits_val(s, radix) <= u64::MAX {
        Some(spec_digits_val(s, radix) as u64)
    } else {
        None
    }
}

/// What parsing a numeric value yields: hexadecimal after a `0x` prefix,
/// decimal otherwise.
pub open spec fn spec_parse_num(s: Seq<u8>) -> Option<u64> {
    if s.len() >= 2 && s[0] == 48 && s[1] == 120 {
        spec_parse_radix(s.skip(2), 16)
    } else {
        spec_parse_radix(s, 10)
    }
}

/// An all-digit value only grows as digits are appended.
proof fn lemma_digits_val_monotone(s: Seq<u8>, radix: int, i: int)
    requires
        2 <= radix,
        0 <= i <= s.len(),
        spec_all_digits(s, radix),
    ensures
        spec_digits_val(s.take(i), radix) <= spec_digits_val(s, radix),
        spec_digits_val(s, radix) >= 0,
    decreases s.len(),
{
    if s.len() == 0 {
        assert(s.take(i) =~= s);
    } else {
        assert(spec_all_digits(s.drop_last(), radix)) by {
            assert forall|j: int| 0 <= j < s.drop_last().len()
                implies spec_digit(#[trigger] s.drop_last()[j], radix) is Some by {
                assert(s.drop_last()[j] == s[j]);
            }
        }
        if i == s.len() {
            assert(s.take(i) =~= s);
            lemma_digits_val_monotone(s.drop_last(), radix, s.len() - 1);
            assert(spec_digits_val(s.drop_last(), radix) * radix >= 0) by (nonlinear_arith)
                requires
                    spec_digits_val(s.drop_last(), radix) >= 0,
                    radix >= 2,
            ;
        } else {
            lemma_digits_val_monotone(s.drop_last(), radix, i);
            assert(s.drop_last().take(i) =~= s.take(i));
            assert(spec_digits_val(s.drop_last(), radix) * radix >= spec_digits_val(s.drop_last(), radix)) by (nonlinear_arith)
                requires
                    spec_digits_val(s.drop_last(), radix) >= 0,
                    radix >= 2,
            ;
        }
    }
}

/// Parse `v` as an unsigned number in the radix (10 or 16): the digits'
/// value, for a nonempty all-digit sequence that fits in 64 bits.
fn parse_radix(v: &[u8], radix: u64) -> (r: Option<u64>)
    requires
        radix == 10 || radix == 16,
    ensures
        r == spec_parse_radix(v@, radix as int),
{
    let n = v.len();
    if n == 0 {
        return None;
    }
    let mut acc: u64 = 0;
    let mut i: usize = 0;
    while i < n
        invariant
            i <= n,
            n == v@.len(),
            radix == 10 || radix == 16,
            spec_all_digits(v@.take(i as int), radix as int),
            acc == spec_digits_val(v@.take(i as int), radix as int),
        decreases n - i,
    {
        let b = v[i];
        let d: u64 = if 48 <= b && b <= 57 {
            (b - 48) as u64
        } else if 97 <= b && b <= 102 {
            (b - 87) as u64
        } else if 65 <= b && b <= 70 {
            (b - 55) as u64
        } else {
            radix
        };
        if d >= radix {
            proof {
                assert(spec_digit(v@[i as int], radix as int) is None);
            }
            return None;
        }
        // reject values that no longer fit in 64 bits
        if acc > (u64::MAX - d) / radix {
            proof {
                let whole = v@;
                let pre = whole.take(i + 1);
                assert(pre.drop_last() =~= whole.take(i as int));
                assert(pre.last() == whole[i as int]);
                assert(spec_digits_val(pre, radix as int) == acc * radix + d);
                assert(acc * radix + d > u64::MAX) by (nonlinear_arith)
                    requires
                        acc > (u64::MAX - d) / (radix as int),
                        radix >= 2,
                        0 <= d < radix,
                        acc >= 0,
                ;
                if spec_all_digits(whole, radix as int) {
                    lemma_digits_val_monotone(whole, radix as int, i + 1);
                }
            }
            return None;
        }
        proof {
            assert(acc * radix + d <= u64::MAX) by (nonlinear_arith)
                requires
                    acc <= (u64::MAX - d) / (radix as int),
                    radix >= 2,
                    0 <= d < radix,
                    acc >= 0,
            ;
            let pre = v@.take(i + 1);
            assert(pre.drop_last() =~= v@.take(i as int));
            assert(pre.last() == v@[i as int]);
            assert(spec_digit(v@[i as int], radix as int) == Some(d as int));
        }
        acc = acc * radix + d;
        i = i + 1;
    }
    proof {
        assert(v@.take(n as int) =~= v@);
    }
    Some(acc)
}

/// Parse a numeric value: hexadecimal after `0x`, decimal otherwise.
fn parse_num(v: &[u8]) -> (r: Option<u64>)
    ensures
        r == spec_parse_num(v@),
{
    if v.len() >= 2 && v[0] == 48 && v[1] == 120 {
        let rest = slice_subrange(v, 2, v.len());
        proof {
            assert(rest@ =~= v@.skip(2));
        }
        parse_radix(rest, 16)
    } else {
        parse_radix(v, 10)
    }
}

/// The configuration after one `key=value` assignment: recognized numeric
/// keys take the parsed value (or stay put when it does not parse), string
/// keys take the raw bytes, and unknown keys change nothing.
pub open spec fn spec_process(c: SpecConfig, key: Seq<u8>, value: Seq<u8>) -> SpecConfig {
    if key == "kernel_stack_address".spec_bytes() {
        match spec_parse_num(value) {
            Some(v) => SpecConfig { kernel_stack_address: v, ..c },
            None => c,
        }
    } else if key == "kernel_stack_size".spec_bytes() {
        match spec_parse_num(value) {
            Some(v) => SpecConfig { kernel_stack_size: v, ..c },
            None => c,
        }
    } else if key == "kernel_stack_auto_grow".spec_bytes() {
        match spec_parse_num(value) {
            Some(v) => SpecConfig { kernel_stack_auto_grow: v, ..c },
            None => c,
        }
    } else if key == "physical_memory_offset".spec_bytes() {
        match spec_parse_num(value) {
            Some(v) => SpecConfig { physical_memory_offset: v, ..c },
            None => c,
        }
    } else if key == "kernel_path".spec_bytes() {
        SpecConfig { kernel_path: value, ..c }
    } else if key == "cmdline".spec_bytes() {
        SpecConfig { cmdline: value, ..c }
    } else if key == "load_apps".spec_bytes() {
        match spec_parse_num(value) {
            Some(v) => SpecConfig { load_apps: v != 0, ..c },
            None => c,
        }
    } else {
        c
    }
}

/// Index of the first occurrence of `b` in `s`, or `s.len()` if absent.
pub open spec fn spec_find(s: Seq<u8>, b: u8) -> int
    decreases s.len(),
{
    if s.len() == 0 {
        0
    } else if s[0] == b {
        0
    } else {
        1 + spec_find(s.drop_first(), b)
    }
}

proof fn lemma_find(s: Seq<u8>, b: u8)
    ensures
        0 <= spec_find(s, b) <= s.len(),
        spec_find(s, b) < s.len() ==> s[spec_find(s, b)] == b,
        forall|j: int| 0 <= j < spec_find(s, b) ==> s[j] != b,
    decreases s.len(),
{
    if s.len() > 0 && s[0] != b {
        lemma_find(s.drop_first(), b);
        assert forall|j: int| 0 <= j < spec_find(s, b) implies s[j] != b by {
            if j > 0 {
                assert(s.drop_first()[j - 1] == s[j]);
            }
        }
        if spec_find(s, b) < s.len() {
            assert(s.drop_first()[spec_find(s.drop_first(), b)] == s[spec_find(s, b)]);
        }
    }
}

/// Index of the first occurrence of `b` in `v`, or `v.len()`.
fn find_byte(v: &[u8], b: u8) -> (r: usize)
    ensures
        r == spec_find(v@, b),
        r <= v@.len(),
{
    proof {
        lemma_find(v@, b);
    }
    let n = v.len();
    let mut i: usize = 0;
    while i < n
        invariant
            i <= n,
            n == v@.len(),
            forall|j: int| 0 <= j < i ==> v@[j] != b,
        decreases n - i,
    {
        if v[i] == b {
            proof {
                lemma_find_at(v@, b, i as int);
            }
            return i;
        }
        i = i + 1;
    }
    proof {
        lemma_find(v@, b);
        if spec_find(v@, b) < v@.len() {
            assert(v@[spec_find(v@, b)] == b);
        }
    }
    n
}

proof fn lemma_find_at(s: Seq<u8>, b: u8, i: int)
    requires
        0 <= i < s.len(),
        s[i] == b,
        forall|j: int| 0 <= j < i ==> s[j] != b,
    ensures
        spec_find(s, b) == i,
    decreases s.len(),
{
    if i > 0 {
        assert forall|j: int| 0 <= j < i - 1 implies s.drop_first()[j] != b by {
            assert(s.drop_first()[j] == s[j + 1]);
        }
        assert(s.drop_first()[i - 1] == s[i]);
        lemma_find_at(s.drop_first(), b, i - 1);
    }
}

/// The configuration after one line of the file: blank lines, comments, and
/// lines without `=` are skipped; otherwise the trimmed line splits at its
/// first `=` into key and value.
pub open spec fn spec_apply_line(c: SpecConfig, line: Seq<u8>) -> SpecConfig {
    let t = spec_trim(line);
    if t.len() == 0 || t[0] == 35 {
        c
    } else {
        let j = spec_find(t, 61);
        if j == t.len() {
            c
        } else {
            spec_process(c, t.take(j), t.skip(j + 1))
        }
    }
}

/// The configuration after all remaining lines of `s`, starting from `c`.
pub open spec fn spec_parse_from(s: Seq<u8>, c: SpecConfig) -> SpecConfig
    decreases s.len(),
{
    if s.len() == 0 {
        c
    } else {
        let i = spec_find(s, 10);
        if 0 <= i < s.len() {
            spec_parse_from(s.skip(i + 1), spec_apply_line(c, s.take(i)))
        } else {
            // the remainder is a single line without a newline
            spec_apply_line(c, s)
        }
    }
}

/// The default configuration, what an empty file parses to.
pub open spec fn spec_default_config() -> SpecConfig {
    SpecConfig {
        kernel_stack_address: 0xFFFF_FF01_0000_0000,
        kernel_stack_auto_grow: 0,
        kernel_stack_size: 512,
        physical_memory_offset: 0xFFFF_8000_0000_0000,
        kernel_path: "\\KERNEL.ELF".spec_bytes(),
        cmdline: Seq::empty(),
        load_apps: false,
    }
}

/// What parsing a whole file yields.
pub open spec fn spec_parse(s: Seq<u8>) -> SpecConfig {
    spec_parse_from(s, spec_default_config())
}

/// The default configuration.
pub fn default_config() -> (r: Config)
    ensures
        r@ == spec_default_config(),
{
    let kernel_path = "\\KERNEL.ELF".as_bytes_vec();
    let r = Config {
        kernel_stack_address: 0xFFFF_FF01_0000_0000,
        kernel_stack_auto_grow: 0,
        kernel_stack_size: 512,
        physical_memory_offset: 0xFFFF_8000_0000_0000,
        kernel_path,
        cmdline: Vec::new(),
        load_apps: false,
    };
    proof {
        assert(r@.cmdline =~= spec_default_config().cmdline);
    }
    r
}

impl Config {
    /// Apply one `key=value` entry.
    fn process(&mut self, key: &[u8], value: &[u8])
        ensures
            final(self)@ == spec_process(old(self)@, key@, value@),
    {
        if bytes_eq(key, "kernel_stack_address".as_bytes()) {
            if let Some(v) = parse_num(value) {
                self.kernel_stack_address = v;
            }
        } else if bytes_eq(key, "kernel_stack_size".as_bytes()) {
            if let Some(v) = parse_num(value) {
                self.kernel_stack_size = v;
            }
        } else if bytes_eq(key, "kernel_stack_auto_grow".as_bytes()) {
            if let Some(v) = parse_num(value) {
                self.kernel_stack_auto_grow = v;
            }
        } else if bytes_eq(key, "physical_memory_offset".as_bytes()) {
            if let Some(v) = parse_num(value) {
                self.physical_memory_offset = v;
            }
        } else if bytes_eq(key, "kernel_path".as_bytes()) {
            self.kernel_path = vstd::slice::slice_to_vec(value);
        } else if bytes_eq(key, "cmdline".as_bytes()) {
            self.cmdline = vstd::slice::slice_to_vec(value);
        } else if bytes_eq(key, "load_apps".as_bytes()) {
            if let Some(v) = parse_num(value) {
                self.load_apps = v != 0;
            }
        } else {
            // unknown key: warn and ignore
        }
    }

    /// Parse a configuration file: the default configuration, updated line
    /// by line.
    pub fn parse(content: &[u8]) -> (r: Config)
        ensures
            r@ == spec_parse(content@),
    {
        let mut config = default_config();
        let n = content.len();
        let mut pos: usize = 0;
        proof {
            assert(content@.skip(0) =~= content@);
        }
        while pos < n
            invariant
                pos <= n,
                n == content@.len(),
                spec_parse_from(content@.skip(pos as int), config@) == spec_parse(content@),
            decreases n - pos,
        {
            let ghost suffix = content@.skip(pos as int);
            let ghost c_pre = config@;
            let tail = slice_subrange(content, pos, n);
            proof {
                assert(tail@ =~= suffix);
            }
            let i = find_byte(tail, 10);
            let line = slice_subrange(tail, 0, i);
            proof {
                assert(line@ =~= suffix.take(i as int));
            }
            let (a, b) = trim_range(line);
            let t = slice_subrange(line, a, b);
            proof {
                assert(t@ =~= spec_trim(line@));
            }
            if t.len() == 0 || t[0] == 35 {
                // blank line or comment
            } else {
                let j = find_byte(t, 61);
                if j == t.len() {
                    // no `=`: not a key=value line
                } else {
                    let key = slice_subrange(t, 0, j);
                    let value = slice_subrange(t, j + 1, t.len());
                    proof {
                        assert(key@ =~= t@.take(j as int));
                        assert(value@ =~= t@.skip(j + 1));
                    }
                    config.process(key, value);
                }
            }
            proof {
                assert(suffix.len() > 0);
                if i < suffix.len() {
                    assert(spec_parse_from(suffix, c_pre) == spec_parse_from(
                        suffix.skip(i + 1),
                        spec_apply_line(c_pre, suffix.take(i as int)),
                    ));
                } else {
                    assert(suffix.take(i as int) =~= suffix);
                    assert(spec_parse_from(suffix, c_pre) == spec_apply_line(c_pre, suffix));
                }
                assert(config@ == spec_apply_line(c_pre, line@));
            }
            if i < tail.len() {
                pos = pos + i + 1;
                proof {
                    assert(content@.skip(pos as int) =~= suffix.skip(i + 1));
                }
            } else {
                pos = n;
                proof {
                    assert(content@.skip(pos as int) =~= Seq::<u8>::empty());
                    assert(spec_parse_from(Seq::<u8>::empty(), config@) == config@);
                }
            }
        }
        proof {
            assert(content@.skip(n as int) =~= Seq::<u8>::empty());
        }
        config
    }
}

/// Decimal digits of `n`, most significant first.
pub open spec fn spec_fmt_dec(n: int) -> Seq<u8>
    decreases n,
{
    if n < 10 {
        seq![(48 + n) as u8]
    } else {
        spec_fmt_dec(n / 10).push((48 + n % 10) as u8)
    }
}

/// One hexadecimal digit, lowercase.
pub open spec fn spec_hex_digit(d: int) -> u8 {
    if d < 10 {
        (48 + d) as u8
    } else {
        (87 + d) as u8
    }
}

/// Hexadecimal digits of `n`, most significant first, lowercase.
pub open spec fn spec_fmt_hex(n: int) -> Seq<u8>
    decreases n,
{
    if n < 16 {
        seq![spec_hex_digit(n)]
    } else {
        spec_fmt_hex(n / 16).push(spec_hex_digit(n % 16))
    }
}

/// Write `n` in decimal.
fn fmt_dec(n: u64) -> (r: Vec<u8>)
    ensures
        r@ == spec_fmt_dec(n as int),
    decreases n,
{
    if n < 10 {
        let mut v: Vec<u8> = Vec::new();
        v.push(48 + (n as u8));
        proof {
            assert(v@ =~= spec_fmt_dec(n as int));
        }
        v
    } else {
        let mut v = fmt_dec(n / 10);
        v.push(48 + ((n % 10) as u8));
        v
    }
}

/// Write `n` in hexadecimal, lowercase, without a prefix.
fn fmt_hex(n: u64) -> (r: Vec<u8>)
    ensures
        r@ == spec_fmt_hex(n as int),
    decreases n,
{
    if n < 16 {
        let d = n as u8;
        let mut v: Vec<u8> = Vec::new();
        v.push(if d < 10 {
            48 + d
        } else {
            87 + d
        });
        proof {
            assert(v@ =~= spec_fmt_hex(n as int));
        }
        v
    } else {
        let mut v = fmt_hex(n / 16);
        let d = (n % 16) as u8;
        v.push(if d < 10 {
            48 + d
        } else {
            87 + d
        });
        v
    }
}

/// Append the bytes of `s` to `v`.
fn push_bytes(v: &mut Vec<u8>, s: &[u8])
    ensures
        final(v)@ == old(v)@ + s@,
{
    let mut part = vstd::slice::slice_to_vec(s);
    v.append(&mut part);
}

/// The `kernel_stack_address` line of the canonical text, newline included.
pub open spec fn spec_line_addr(c: SpecConfig) -> Seq<u8> {
    "kernel_stack_address=0x".spec_bytes() + spec_fmt_hex(c.kernel_stack_address as int)
        + seq![10u8]
}

/// The `kernel_stack_size` line.
pub open spec fn spec_line_size(c: SpecConfig) -> Seq<u8> {
    "kernel_stack_size=".spec_bytes() + spec_fmt_dec(c.kernel_stack_size as int) + seq![10u8]
}

/// The `kernel_stack_auto_grow` line.
pub open spec fn spec_line_auto_grow(c: SpecConfig) -> Seq<u8> {
    "kernel_stack_auto_grow=".spec_bytes() + spec_fmt_dec(c.kernel_stack_auto_grow as int)
        + seq![10u8]
}

/// The `physical_memory_offset` line.
pub open spec fn spec_line_offset(c: SpecConfig) -> Seq<u8> {
    "physical_memory_offset=0x".spec_bytes() + spec_fmt_hex(c.physical_memory_offset as int)
        + seq![10u8]
}

/// The `kernel_path` line.
pub open spec fn spec_line_path(c: SpecConfig) -> Seq<u8> {
    "kernel_path=".spec_bytes() + c.kernel_path + seq![10u8]
}

/// The `cmdline` line.
pub open spec fn spec_line_cmdline(c: SpecConfig) -> Seq<u8> {
    "cmdline=".spec_bytes() + c.cmdline + seq![10u8]
}

/// The `load_apps` line, `0` or `1`.
pub open spec fn spec_line_load_apps(c: SpecConfig) -> Seq<u8> {
    "load_apps=".spec_bytes() + seq![
        if c.load_apps {
            49u8
        } else {
            48u8
        },
    ] + seq![10u8]
}

/// The canonical text of a configuration: every field on its own
/// `key=value` line, addresses in `0x`-prefixed hexadecimal, sizes in
/// decimal, `load_apps` as `0` or `1`.
pub open spec fn spec_print(c: SpecConfig) -> Seq<u8> {
    spec_line_addr(c) + (spec_line_size(c) + (spec_line_auto_grow(c) + (spec_line_offset(c)
        + (spec_line_path(c) + (spec_line_cmdline(c) + spec_line_load_apps(c))))))
}

proof fn lemma_fmt_dec_facts(n: int)
    requires
        n >= 0,
    ensures
        spec_fmt_dec(n).len() >= 1,
        spec_digits_val(spec_fmt_dec(n), 10) == n,
        forall|i: int| 0 <= i < spec_fmt_dec(n).len()
            ==> 48 <= #[trigger] spec_fmt_dec(n)[i] <= 57,
    decreases n,
{
    if n < 10 {
        assert(spec_fmt_dec(n).drop_last() =~= Seq::<u8>::empty());
        assert(spec_fmt_dec(n).last() == (48 + n) as u8);
        assert(spec_digit((48 + n) as u8, 10) == Some(n));
        assert(spec_digits_val(spec_fmt_dec(n), 10) == spec_digits_val(
            spec_fmt_dec(n).drop_last(),
            10,
        ) * 10 + spec_digit(spec_fmt_dec(n).last(), 10).unwrap_or(0));
        assert(spec_digits_val(Seq::<u8>::empty(), 10) == 0);
    } else {
        lemma_fmt_dec_facts(n / 10);
        let s = spec_fmt_dec(n / 10);
        let d = (48 + n % 10) as u8;
        assert(spec_fmt_dec(n).drop_last() =~= s);
        assert(spec_fmt_dec(n).last() == d);
        assert(spec_digit(d, 10) == Some(n % 10));
        assert(spec_digits_val(spec_fmt_dec(n), 10) == spec_digits_val(
            spec_fmt_dec(n).drop_last(),
            10,
        ) * 10 + spec_digit(spec_fmt_dec(n).last(), 10).unwrap_or(0));
        assert(spec_digits_val(s, 10) * 10 + n % 10 == n) by (nonlinear_arith)
            requires
                spec_digits_val(s, 10) == n / 10,
                n >= 10,
        ;
        assert forall|i: int| 0 <= i < spec_fmt_dec(n).len()
            implies 48 <= #[trigger] spec_fmt_dec(n)[i] <= 57 by {
            if i < s.len() {
                assert(spec_fmt_dec(n)[i] == s[i]);
            }
        }
    }
}

proof fn lemma_fmt_hex_facts(n: int)
    requires
        n >= 0,
    ensures
        spec_fmt_hex(n).len() >= 1,
        spec_digits_val(spec_fmt_hex(n), 16) == n,
        forall|i: int| 0 <= i < spec_fmt_hex(n).len()
            ==> (48 <= #[trigger] spec_fmt_hex(n)[i] <= 57)
                || (97 <= spec_fmt_hex(n)[i] <= 102),
    decreases n,
{
    if n < 16 {
        assert(spec_fmt_hex(n).drop_last() =~= Seq::<u8>::empty());
        assert(spec_fmt_hex(n).last() == spec_hex_digit(n));
        assert(spec_digit(spec_hex_digit(n), 16) == Some(n));
        assert(spec_digits_val(spec_fmt_hex(n), 16) == spec_digits_val(
            spec_fmt_hex(n).drop_last(),
            16,
        ) * 16 + spec_digit(spec_fmt_hex(n).last(), 16).unwrap_or(0));
        assert(spec_digits_val(Seq::<u8>::empty(), 16) == 0);
    } else {
        lemma_fmt_hex_facts(n / 16);
        let s = spec_fmt_hex(n / 16);
        let d = spec_hex_digit(n % 16);
        assert(spec_fmt_hex(n).drop_last() =~= s);
        assert(spec_fmt_hex(n).last() == d);
        assert(spec_digit(d, 16) == Some(n % 16));
        assert(spec_digits_val(spec_fmt_hex(n), 16) == spec_digits_val(
            spec_fmt_hex(n).drop_last(),
            16,
        ) * 16 + spec_digit(spec_fmt_hex(n).last(), 16).unwrap_or(0));
        assert(spec_digits_val(s, 16) * 16 + n % 16 == n) by (nonlinear_arith)
            requires
                spec_digits_val(s, 16) == n / 16,
                n >= 16,
        ;
        assert forall|i: int| 0 <= i < spec_fmt_hex(n).len()
            implies (48 <= #[trigger] spec_fmt_hex(n)[i] <= 57)
                || (97 <= spec_fmt_hex(n)[i] <= 102) by {
            if i < s.len() {
                assert(spec_fmt_hex(n)[i] == s[i]);
            }
        }
    }
}

/// Numbers survive the configuration round trip: a value written in
/// decimal parses back to itself, and so does one written with the `0x`
/// prefix in hexadecimal — for every 64-bit value, not just those the
/// default configuration happens to hold.
pub proof fn lemma_numeric_value_roundtrip(n: u64)
    ensures
        spec_parse_num(spec_fmt_dec(n as int)) == Some(n),
        spec_parse_num(seq![48u8, 120u8] + spec_fmt_hex(n as int)) == Some(n),
{
    lemma_fmt_dec_facts(n as int);
    let dec = spec_fmt_dec(n as int);
    // decimal digits never look like a `0x` prefix
    assert(dec.len() >= 2 ==> dec[1] != 120);
    assert(spec_all_digits(dec, 10));
    lemma_fmt_hex_facts(n as int);
    let hex = spec_fmt_hex(n as int);
    let prefixed = seq![48u8, 120u8] + hex;
    assert(prefixed[0] == 48 && prefixed[1] == 120);
    assert(prefixed.skip(2) =~= hex);
    assert(spec_all_digits(hex, 16));
}

/// Bytes that survive a `key=value` line unchanged: no newline (which
/// would split the line) and no trailing whitespace (which line trimming
/// would strip).
pub open spec fn clean_bytes(s: Seq<u8>) -> bool {
    &&& forall|i: int| 0 <= i < s.len() ==> #[trigger] s[i] != 10
    &&& s.len() > 0 ==> !spec_is_space(s.last())
}

/// Parsing takes one newline-terminated line off the front of the text.
proof fn lemma_parse_step(line: Seq<u8>, rest: Seq<u8>, acc: SpecConfig)
    requires
        forall|i: int| 0 <= i < line.len() ==> #[trigger] line[i] != 10,
    ensures
        spec_parse_from(line + seq![10u8] + rest, acc)
            == spec_parse_from(rest, spec_apply_line(acc, line)),
{
    let s = line + seq![10u8] + rest;
    assert(s[line.len() as int] == 10);
    assert forall|j: int| 0 <= j < line.len() implies s[j] != 10 by {
        assert(s[j] == line[j]);
    }
    lemma_find_at(s, 10, line.len() as int);
    assert(s.take(line.len() as int) =~= line);
    assert(s.skip(line.len() as int + 1) =~= rest);
}

/// A clean `key=value` line is applied as exactly that assignment: line
/// trimming keeps it whole and the split happens at the key's `=`.
proof fn lemma_apply_kv(acc: SpecConfig, key: Seq<u8>, value: Seq<u8>)
    requires
        key.len() > 0,
        !spec_is_space(key[0]),
        key[0] != 35,
        forall|j: int| 0 <= j < key.len() ==> #[trigger] key[j] != 61,
        value.len() > 0 ==> !spec_is_space(value.last()),
    ensures
        spec_apply_line(acc, key + seq![61u8] + value) == spec_process(acc, key, value),
{
    let line = key + seq![61u8] + value;
    assert(line[0] == key[0]);
    assert(!spec_is_space(line[0]));
    assert(spec_trim_front(line) == line);
    if value.len() > 0 {
        assert(line.last() == value.last());
    } else {
        assert(line.last() == 61);
    }
    assert(!spec_is_space(line.last()));
    assert(spec_trim_back(line) == line);
    assert(spec_trim(line) == line);
    assert(line[key.len() as int] == 61);
    assert forall|j: int| 0 <= j < key.len() implies line[j] != 61 by {
        assert(line[j] == key[j]);
    }
    lemma_find_at(line, 61, key.len() as int);
    assert(line.take(key.len() as int) =~= key);
    assert(line.skip(key.len() as int + 1) =~= value);
}

/// The byte shapes of the configuration keys and of the line prefixes the
/// printer emits: each prefix is its key, an `=`, and for the address
/// fields a `0x`; keys hold no `=`, no newline, and no leading clutter;
/// and the seven keys are pairwise distinct.
proof fn lemma_key_bytes()
    ensures
        "kernel_stack_address=0x".spec_bytes() =~= "kernel_stack_address".spec_bytes()
            + seq![61u8] + seq![48u8, 120u8],
        "kernel_stack_size=".spec_bytes() =~= "kernel_stack_size".spec_bytes() + seq![61u8],
        "kernel_stack_auto_grow=".spec_bytes() =~= "kernel_stack_auto_grow".spec_bytes()
            + seq![61u8],
        "physical_memory_offset=0x".spec_bytes() =~= "physical_memory_offset".spec_bytes()
            + seq![61u8] + seq![48u8, 120u8],
        "kernel_path=".spec_bytes() =~= "kernel_path".spec_bytes() + seq![61u8],
        "cmdline=".spec_bytes() =~= "cmdline".spec_bytes() + seq![61u8],
        "load_apps=".spec_bytes() =~= "load_apps".spec_bytes() + seq![61u8],
        key_shape("kernel_stack_address".spec_bytes()),
        key_shape("kernel_stack_size".spec_bytes()),
        key_shape("kernel_stack_auto_grow".spec_bytes()),
        key_shape("physical_memory_offset".spec_bytes()),
        key_shape("kernel_path".spec_bytes()),
        key_shape("cmdline".spec_bytes()),
        key_shape("load_apps".spec_bytes()),
        "kernel_stack_size".spec_bytes() != "kernel_stack_address".spec_bytes(),
        "kernel_stack_auto_grow".spec_bytes() != "kernel_stack_address".spec_bytes(),
        "kernel_stack_auto_grow".spec_bytes() != "kernel_stack_size".spec_bytes(),
        "physical_memory_offset".spec_bytes() != "kernel_stack_address".spec_bytes(),
        "physical_memory_offset".spec_bytes() != "kernel_stack_size".spec_bytes(),
        "physical_memory_offset".spec_bytes() != "kernel_stack_auto_grow".spec_bytes(),
        "kernel_path".spec_bytes() != "kernel_stack_address".spec_bytes(),
        "kernel_path".spec_bytes() != "kernel_stack_size".spec_bytes(),
        "kernel_path".spec_bytes() != "kernel_stack_auto_grow".spec_bytes(),
        "kernel_path".spec_bytes() != "physical_memory_offset".spec_bytes(),
        "cmdline".spec_bytes() != "kernel_stack_address".spec_bytes(),
        "cmdline".spec_bytes() != "kernel_stack_size".spec_bytes(),
        "cmdline".spec_bytes() != "kernel_stack_auto_grow".spec_bytes(),
        "cmdline".spec_bytes() != "physical_memory_offset".spec_bytes(),
        "cmdline".spec_bytes() != "kernel_path".spec_bytes(),
        "load_apps".spec_bytes() != "kernel_stack_address".spec_bytes(),
        "load_apps".spec_bytes() != "kernel_stack_size".spec_bytes(),
        "load_apps".spec_bytes() != "kernel_stack_auto_grow".spec_bytes(),
        "load_apps".spec_bytes() != "physical_memory_offset".spec_bytes(),
        "load_apps".spec_bytes() != "kernel_path".spec_bytes(),
        "load_apps".spec_bytes() != "cmdline".spec_bytes(),
{
    reveal_strlit("kernel_stack_address=0x");
    reveal_strlit("kernel_stack_address");
    reveal_strlit("kernel_stack_size=");
    reveal_strlit("kernel_stack_size");
    reveal_strlit("kernel_stack_auto_grow=");
    reveal_strlit("kernel_stack_auto_grow");
    reveal_strlit("physical_memory_offset=0x");
    reveal_strlit("physical_memory_offset");
    reveal_strlit("kernel_path=");
    reveal_strlit("kernel_path");
    reveal_strlit("cmdline=");
    reveal_strlit("cmdline");
    reveal_strlit("load_apps=");
    reveal_strlit("load_apps");
    assert(vstd::string::is_ascii("kernel_stack_address=0x"));
    assert(vstd::string::is_ascii("kernel_stack_address"));
    assert(vstd::string::is_ascii("kernel_stack_size="));
    assert(vstd::string::is_ascii("kernel_stack_size"));
    assert(vstd::string::is_ascii("kernel_stack_auto_grow="));
    assert(vstd::string::is_ascii("kernel_stack_auto_grow"));
    assert(vstd::string::is_ascii("physical_memory_offset=0x"));
    assert(vstd::string::is_ascii("physical_memory_offset"));
    assert(vstd::string::is_ascii("kernel_path="));
    assert(vstd::string::is_ascii("kernel_path"));
    assert(vstd::string::is_ascii("cmdline="));
    assert(vstd::string::is_ascii("cmdline"));
    assert(vstd::string::is_ascii("load_apps="));
    assert(vstd::string::is_ascii("load_apps"));
    vstd::string::is_ascii_spec_bytes("kernel_stack_address=0x");
    vstd::string::is_ascii_spec_bytes("kernel_stack_address");
    vstd::string::is_ascii_spec_bytes("kernel_stack_size=");
    vstd::string::is_ascii_spec_bytes("kernel_stack_size");
    vstd::string::is_ascii_spec_bytes("kernel_stack_auto_grow=");
    vstd::string::is_ascii_spec_bytes("kernel_stack_auto_grow");
    vstd::string::is_ascii_spec_bytes("physical_memory_offset=0x");
    vstd::string::is_ascii_spec_bytes("physical_memory_offset");
    vstd::string::is_ascii_spec_bytes("kernel_path=");
    vstd::string::is_ascii_spec_bytes("kernel_path");
    vstd::string::is_ascii_spec_bytes("cmdline=");
    vstd::string::is_ascii_spec_bytes("cmdline");
    vstd::string::is_ascii_spec_bytes("load_apps=");
    vstd::string::is_ascii_spec_bytes("load_apps");
}

/// The shape every configuration key has: nonempty, no leading whitespace
/// or comment mark, and free of `=` and newline bytes.
pub open spec fn key_shape(key: Seq<u8>) -> bool {
    &&& key.len() > 0
    &&& !spec_is_space(key[0])
    &&& key[0] != 35
    &&& forall|j: int| 0 <= j < key.len() ==> #[trigger] key[j] != 61 && key[j] != 10
}

/// A `key=value` line whose parts are newline-free is newline-free.
proof fn lemma_line_no_newline(k: Seq<u8>, v: Seq<u8>)
    requires
        key_shape(k),
        forall|j: int| 0 <= j < v.len() ==> #[trigger] v[j] != 10,
    ensures
        forall|i: int| 0 <= i < (k + seq![61u8] + v).len()
            ==> #[trigger] (k + seq![61u8] + v)[i] != 10,
{
    assert forall|i: int| 0 <= i < (k + seq![61u8] + v).len()
        implies #[trigger] (k + seq![61u8] + v)[i] != 10 by {
        let line = k + seq![61u8] + v;
        if i < k.len() {
            assert(line[i] == k[i]);
        } else if i == k.len() {
            assert(line[i] == 61);
        } else {
            assert(line[i] == v[i - k.len() - 1]);
        }
    }
}

proof fn lemma_parse_line_addr(acc: SpecConfig, c: SpecConfig, rest: Seq<u8>)
    ensures
        spec_parse_from(spec_line_addr(c) + rest, acc) == spec_parse_from(
            rest,
            SpecConfig { kernel_stack_address: c.kernel_stack_address, ..acc },
        ),
{
    lemma_key_bytes();
    lemma_fmt_hex_facts(c.kernel_stack_address as int);
    lemma_numeric_value_roundtrip(c.kernel_stack_address);
    let k = "kernel_stack_address".spec_bytes();
    let v = seq![48u8, 120u8] + spec_fmt_hex(c.kernel_stack_address as int);
    let l = k + seq![61u8] + v;
    assert forall|j: int| 0 <= j < v.len() implies #[trigger] v[j] != 10 by {
        if j >= 2 {
            assert(v[j] == spec_fmt_hex(c.kernel_stack_address as int)[j - 2]);
        }
    }
    assert(v.last() == spec_fmt_hex(c.kernel_stack_address as int).last());
    lemma_line_no_newline(k, v);
    assert(spec_line_addr(c) + rest =~= l + seq![10u8] + rest);
    lemma_parse_step(l, rest, acc);
    lemma_apply_kv(acc, k, v);
}

proof fn lemma_parse_line_size(acc: SpecConfig, c: SpecConfig, rest: Seq<u8>)
    ensures
        spec_parse_from(spec_line_size(c) + rest, acc) == spec_parse_from(
            rest,
            SpecConfig { kernel_stack_size: c.kernel_stack_size, ..acc },
        ),
{
    lemma_key_bytes();
    lemma_fmt_dec_facts(c.kernel_stack_size as int);
    lemma_numeric_value_roundtrip(c.kernel_stack_size);
    let k = "kernel_stack_size".spec_bytes();
    let v = spec_fmt_dec(c.kernel_stack_size as int);
    let l = k + seq![61u8] + v;
    lemma_line_no_newline(k, v);
    assert(spec_line_size(c) + rest =~= l + seq![10u8] + rest);
    lemma_parse_step(l, rest, acc);
    lemma_apply_kv(acc, k, v);
}

proof fn lemma_parse_line_auto_grow(acc: SpecConfig, c: SpecConfig, rest: Seq<u8>)
    ensures
        spec_parse_from(spec_line_auto_grow(c) + rest, acc) == spec_parse_from(
            rest,
            SpecConfig { kernel_stack_auto_grow: c.kernel_stack_auto_grow, ..acc },
        ),
{
    lemma_key_bytes();
    lemma_fmt_dec_facts(c.kernel_stack_auto_grow as int);
    lemma_numeric_value_roundtrip(c.kernel_stack_auto_grow);
    let k = "kernel_stack_auto_grow".spec_bytes();
    let v = spec_fmt_dec(c.kernel_stack_auto_grow as int);
    let l = k + seq![61u8] + v;
    lemma_line_no_newline(k, v);
    assert(spec_line_auto_grow(c) + rest =~= l + seq![10u8] + rest);
    lemma_parse_step(l, rest, acc);
    lemma_apply_kv(acc, k, v);
}

proof fn lemma_parse_line_offset(acc: SpecConfig, c: SpecConfig, rest: Seq<u8>)
    ensures
        spec_parse_from(spec_line_offset(c) + rest, acc) == spec_parse_from(
            rest,
            SpecConfig { physical_memory_offset: c.physical_memory_offset, ..acc },
        ),
{
    lemma_key_bytes();
    lemma_fmt_hex_facts(c.physical_memory_offset as int);
    lemma_numeric_value_roundtrip(c.physical_memory_offset);
    let k = "physical_memory_offset".spec_bytes();
    let v = seq![48u8, 120u8] + spec_fmt_hex(c.physical_memory_offset as int);
    let l = k + seq![61u8] + v;
    assert forall|j: int| 0 <= j < v.len() implies #[trigger] v[j] != 10 by {
        if j >= 2 {
            assert(v[j] == spec_fmt_hex(c.physical_memory_offset as int)[j - 2]);
        }
    }
    assert(v.last() == spec_fmt_hex(c.physical_memory_offset as int).last());
    lemma_line_no_newline(k, v);
    assert(spec_line_offset(c) + rest =~= l + seq![10u8] + rest);
    lemma_parse_step(l, rest, acc);
    lemma_apply_kv(acc, k, v);
}

proof fn lemma_parse_line_path(acc: SpecConfig, c: SpecConfig, rest: Seq<u8>)
    requires
        clean_bytes(c.kernel_path),
    ensures
        spec_parse_from(spec_line_path(c) + rest, acc) == spec_parse_from(
            rest,
            SpecConfig { kernel_path: c.kernel_path, ..acc },
        ),
{
    lemma_key_bytes();
    let k = "kernel_path".spec_bytes();
    let v = c.kernel_path;
    let l = k + seq![61u8] + v;
    lemma_line_no_newline(k, v);
    assert(spec_line_path(c) + rest =~= l + seq![10u8] + rest);
    lemma_parse_step(l, rest, acc);
    lemma_apply_kv(acc, k, v);
}

proof fn lemma_parse_line_cmdline(acc: SpecConfig, c: SpecConfig, rest: Seq<u8>)
    requires
        clean_bytes(c.cmdline),
    ensures
        spec_parse_from(spec_line_cmdline(c) + rest, acc) == spec_parse_from(
            rest,
            SpecConfig { cmdline: c.cmdline, ..acc },
        ),
{
    lemma_key_bytes();
    let k = "cmdline".spec_bytes();
    let v = c.cmdline;
    let l = k + seq![61u8] + v;
    lemma_line_no_newline(k, v);
    assert(spec_line_cmdline(c) + rest =~= l + seq![10u8] + rest);
    lemma_parse_step(l, rest, acc);
    lemma_apply_kv(acc, k, v);
}

proof fn lemma_parse_line_load_apps(acc: SpecConfig, c: SpecConfig, rest: Seq<u8>)
    ensures
        spec_parse_from(spec_line_load_apps(c) + rest, acc) == spec_parse_from(
            rest,
            SpecConfig { load_apps: c.load_apps, ..acc },
        ),
{
    lemma_key_bytes();
    let k = "load_apps".spec_bytes();
    let v = seq![
        if c.load_apps {
            49u8
        } else {
            48u8
        },
    ];
    let l = k + seq![61u8] + v;
    lemma_line_no_newline(k, v);
    assert(spec_line_load_apps(c) + rest =~= l + seq![10u8] + rest);
    lemma_parse_step(l, rest, acc);
    lemma_apply_kv(acc, k, v);
    assert(v.drop_last() =~= Seq::<u8>::empty());
    assert(v.last() == v[0]);
    assert(spec_digit(v[0], 10) == Some(if c.load_apps { 1int } else { 0int }));
    assert(spec_all_digits(v, 10));
    assert(spec_digits_val(Seq::<u8>::empty(), 10) == 0);
    assert(spec_digits_val(v, 10) == spec_digits_val(v.drop_last(), 10) * 10 + spec_digit(
        v.last(),
        10,
    ).unwrap_or(0));
    assert(spec_digits_val(v, 10) == if c.load_apps { 1int } else { 0int });
    assert(spec_parse_radix(v, 10) == Some(if c.load_apps { 1u64 } else { 0u64 }));
}

/// The configuration round trip in general: parsing any configuration\'s
/// printed form yields that configuration back, field for field, as long
/// as the path and command line are [`clean_bytes`] (free of newlines and
/// trailing whitespace, which the line format cannot carry).
pub proof fn lemma_config_roundtrip(c: SpecConfig)
    requires
        clean_bytes(c.kernel_path),
        clean_bytes(c.cmdline),
    ensures
        spec_parse(spec_print(c)) == c,
{
    let c0 = spec_default_config();
    let r1 = spec_line_size(c) + (spec_line_auto_grow(c) + (spec_line_offset(c)
        + (spec_line_path(c) + (spec_line_cmdline(c) + spec_line_load_apps(c)))));
    let r2 = spec_line_auto_grow(c) + (spec_line_offset(c) + (spec_line_path(c)
        + (spec_line_cmdline(c) + spec_line_load_apps(c))));
    let r3 = spec_line_offset(c) + (spec_line_path(c) + (spec_line_cmdline(c)
        + spec_line_load_apps(c)));
    let r4 = spec_line_path(c) + (spec_line_cmdline(c) + spec_line_load_apps(c));
    let r5 = spec_line_cmdline(c) + spec_line_load_apps(c);
    let r6 = spec_line_load_apps(c);
    let c1 = SpecConfig { kernel_stack_address: c.kernel_stack_address, ..c0 };
    let c2 = SpecConfig { kernel_stack_size: c.kernel_stack_size, ..c1 };
    let c3 = SpecConfig { kernel_stack_auto_grow: c.kernel_stack_auto_grow, ..c2 };
    let c4 = SpecConfig { physical_memory_offset: c.physical_memory_offset, ..c3 };
    let c5 = SpecConfig { kernel_path: c.kernel_path, ..c4 };
    let c6 = SpecConfig { cmdline: c.cmdline, ..c5 };
    let c7 = SpecConfig { load_apps: c.load_apps, ..c6 };
    lemma_parse_line_addr(c0, c, r1);
    lemma_parse_line_size(c1, c, r2);
    lemma_parse_line_auto_grow(c2, c, r3);
    lemma_parse_line_offset(c3, c, r4);
    lemma_parse_line_path(c4, c, r5);
    lemma_parse_line_cmdline(c5, c, r6);
    lemma_parse_line_load_apps(c6, c, Seq::empty());
    assert(r6 =~= spec_line_load_apps(c) + Seq::<u8>::empty());
    assert(spec_parse_from(Seq::<u8>::empty(), c7) == c7);
    assert(c7 =~= c);
}

impl Config {
    /// Write the configuration back out as a file that [`Config::parse`]
    /// reads.
    #[verifier::spinoff_prover]
    #[verifier::rlimit(60)]
    pub fn print(&self) -> (r: Vec<u8>)
        ensures
            r@ == spec_print(self@),
    {
        let mut v: Vec<u8> = Vec::new();
        push_bytes(&mut v, "kernel_stack_address=0x".as_bytes());
        let mut part = fmt_hex(self.kernel_stack_address);
        v.append(&mut part);
        v.push(10);
        push_bytes(&mut v, "kernel_stack_size=".as_bytes());
        let mut part = fmt_dec(self.kernel_stack_size);
        v.append(&mut part);
        v.push(10);
        push_bytes(&mut v, "kernel_stack_auto_grow=".as_bytes());
        let mut part = fmt_dec(self.kernel_stack_auto_grow);
        v.append(&mut part);
        v.push(10);
        push_bytes(&mut v, "physical_memory_offset=0x".as_bytes());
        let mut part = fmt_hex(self.physical_memory_offset);
        v.append(&mut part);
        v.push(10);
        push_bytes(&mut v, "kernel_path=".as_bytes());
        push_bytes(&mut v, self.kernel_path.as_slice());
        v.push(10);
        push_bytes(&mut v, "cmdline=".as_bytes());
        push_bytes(&mut v, self.cmdline.as_slice());
        v.push(10);
        push_bytes(&mut v, "load_apps=".as_bytes());
        v.push(if self.load_apps {
            49
        } else {
            48
        });
        v.push(10);
        proof {
            assert(v@ =~= spec_print(self@));
        }
        v
    }
}

} // verus!
