//! Hardware description records attached to a session's metadata, and
//! the parser for the GPU listing that the platform's query tool
//! prints.
//!
//! Probing the machine is the caller's business; the records here hold
//! the probed values in plain form, with memory sizes in bytes so the
//! library stays within exact integer arithmetic.

use vstd::prelude::*;
use vstd::string::StrSliceExecFns;

verus! {

/// The machine's processor, as probed.
pub struct CpuSpecs {
    pub name: String,
    pub cores: usize,
    pub frequency_mhz: u64,
    pub vendor: String,
    pub brand: String,
}

/// One graphics adapter.
pub struct GpuSpecs {
    pub name: String,
    pub vendor: String,
}

/// The operating system and machine, as probed.  Memory is counted in
/// bytes.
pub struct SystemSpecs {
    pub os_name: String,
    pub os_version: String,
    pub kernel_version: String,
    pub hostname: String,
    pub total_memory_bytes: u64,
}

/// Everything attached to the metadata document when probing worked.
pub struct HardwareSpecs {
    pub cpu: CpuSpecs,
    pub gpus: Vec<GpuSpecs>,
    pub system: SystemSpecs,
}

/// The vendor a GPU name implies: the well-known vendor whose mark the
/// name carries, folded to ASCII lower case.
#[derive(Debug, Clone, Copy, PartialEq, Eq, Structural)]
pub enum GpuVendor {
    Nvidia,
    Amd,
    Intel,
    Unknown,
}

/// `b` is `a` with ASCII capitals folded to lower case.
pub open spec fn folds_to(a: Seq<char>, b: Seq<char>) -> bool {
    a.len() == b.len() && forall|i: int|
        0 <= i < a.len() ==> crate::games::char_folds_to(a[i], b[i])
}

/// Whether the lower-cased `name` contains `needle` as a substring.
pub open spec fn contains_folded(name: Seq<char>, needle: Seq<char>) -> bool {
    exists|i: int|
        0 <= i <= name.len() - needle.len() && folds_to(
            #[trigger] name.subrange(i, i + needle.len()),
            needle,
        )
}

/// The vendor classification of a GPU name.
pub open spec fn spec_vendor_of(name: Seq<char>) -> GpuVendor {
    if contains_folded(name, "nvidia"@) {
        GpuVendor::Nvidia
    } else if contains_folded(name, "amd"@) || contains_folded(name, "radeon"@) {
        GpuVendor::Amd
    } else if contains_folded(name, "intel"@) {
        GpuVendor::Intel
    } else {
        GpuVendor::Unknown
    }
}

/// Whether `name` carries `needle` (a lower-case marker) at any
/// position, compared with ASCII case folded.
fn contains_folded_exec(name: &str, needle: &str) -> (r: bool)
    ensures
        r == contains_folded(name@, needle@),
{
    let n = name.unicode_len();
    let m = needle.unicode_len();
    if m > n {
        return false;
    }
    let mut i: usize = 0;
    while i <= n - m
        invariant
            0 <= i <= n - m + 1,
            m <= n,
            n == name@.len(),
            m == needle@.len(),
            forall|k: int|
                0 <= k < i ==> !folds_to(#[trigger] name@.subrange(k, k + m), needle@),
        decreases n - m + 1 - i,
    {
        let mut j: usize = 0;
        let mut all: bool = true;
        while all && j < m
            invariant
                0 <= j <= m <= n == name@.len(),
                i + m <= n,
                m == needle@.len(),
                all ==> forall|p: int|
                    0 <= p < j ==> crate::games::char_folds_to(
                        #[trigger] name@.subrange(i as int, i + m)[p],
                        needle@[p],
                    ),
                !all ==> !folds_to(name@.subrange(i as int, i + m), needle@),
            decreases m - j, (if all {
                1int
            } else {
                0int
            }),
        {
            let a = name.get_char(i + j) as u32;
            let b = needle.get_char(j) as u32;
            let same = if 65 <= a && a <= 90 {
                a + 32 == b
            } else {
                a == b
            };
            proof {
                assert(name@.subrange(i as int, i + m)[j as int] == name@[i + j]);
            }
            if !same {
                assert(!crate::games::char_folds_to(
                    name@.subrange(i as int, i + m)[j as int],
                    needle@[j as int],
                ));
                all = false;
            } else {
                assert(crate::games::char_folds_to(
                    name@.subrange(i as int, i + m)[j as int],
                    needle@[j as int],
                ));
                j = j + 1;
            }
        }
        if all {
            assert(folds_to(name@.subrange(i as int, i + m), needle@));
            return true;
        }
        i = i + 1;
    }
    false
}

/// Classifies a GPU name by the vendor marks it carries.
pub fn vendor_of(name: &str) -> (v: GpuVendor)
    ensures
        v == spec_vendor_of(name@),
{
    if contains_folded_exec(name, "nvidia") {
        GpuVendor::Nvidia
    } else if contains_folded_exec(name, "amd") || contains_folded_exec(name, "radeon") {
        GpuVendor::Amd
    } else if contains_folded_exec(name, "intel") {
        GpuVendor::Intel
    } else {
        GpuVendor::Unknown
    }
}

/// A machine identifier with a surrounding brace pair removed, as the
/// platform's hardware-profile GUID carries one; anything else passes
/// through unchanged.
pub open spec fn spec_unbraced(s: Seq<char>) -> Seq<char> {
    if s.len() >= 2 && s[0] == '{' && s[s.len() - 1] == '}' {
        s.subrange(1, s.len() - 1)
    } else {
        s
    }
}

/// Strips the brace pair off a machine identifier, if it carries one.
pub fn unbraced_hardware_id(s: &str) -> (r: String)
    ensures
        r@ == spec_unbraced(s@),
{
    let n = s.unicode_len();
    if n >= 2 && s.get_char(0) == '{' && s.get_char(n - 1) == '}' {
        s.substring_char(1, n - 1).to_owned()
    } else {
        s.to_owned()
    }
}

/// Whether `c` is ASCII whitespace, as the listing parser trims it.
pub open spec fn ws_char(c: char) -> bool {
    c == ' ' || c == '\t' || c == '\r' || c == '\n'
}

/// End of the run of whitespace starting at `from`.
pub open spec fn ws_run_end(s: Seq<char>, from: int) -> int
    decreases s.len() - from
        when 0 <= from <= s.len()
{
    if from < s.len() && ws_char(s[from]) {
        ws_run_end(s, from + 1)
    } else {
        from
    }
}

/// Start of the run of whitespace ending at `upto`.
pub open spec fn ws_run_start(s: Seq<char>, upto: int) -> int
    decreases upto
        when 0 <= upto <= s.len()
{
    if upto > 0 && ws_char(s[upto - 1]) {
        ws_run_start(s, upto - 1)
    } else {
        upto
    }
}

/// `s` with leading and trailing whitespace removed.
pub open spec fn trimmed(s: Seq<char>) -> Seq<char> {
    let a = ws_run_end(s, 0);
    let b = ws_run_start(s, s.len() as int);
    if a <= b {
        s.subrange(a, b)
    } else {
        Seq::<char>::empty()
    }
}

/// First position of `c` at or after `from`, or the length if there is
/// none.
pub open spec fn index_of_from(s: Seq<char>, from: int, c: char) -> int
    decreases s.len() - from
        when 0 <= from <= s.len()
{
    if from < s.len() {
        if s[from] == c {
            from
        } else {
            index_of_from(s, from + 1, c)
        }
    } else {
        from
    }
}

/// The first occurrence lies between `from` and the length.
proof fn lemma_index_of_from_props(s: Seq<char>, from: int, c: char)
    requires
        0 <= from <= s.len(),
    ensures
        from <= index_of_from(s, from, c) <= s.len(),
    decreases s.len() - from,
{
    if from < s.len() && s[from] != c {
        lemma_index_of_from_props(s, from + 1, c);
    }
}

/// Any position with the first-occurrence properties is the first
/// occurrence.
proof fn lemma_index_of_from_at(s: Seq<char>, from: int, c: char, i: int)
    requires
        0 <= from <= i <= s.len(),
        forall|j: int| from <= j < i ==> s[j] != c,
        i == s.len() || s[i] == c,
    ensures
        index_of_from(s, from, c) == i,
    decreases s.len() - from,
{
    if from < s.len() && s[from] != c {
        lemma_index_of_from_at(s, from + 1, c, i);
    }
}

/// Any index with the whitespace-run properties is the run's end.
proof fn lemma_ws_run_end_at(s: Seq<char>, from: int, i: int)
    requires
        0 <= from <= i <= s.len(),
        forall|j: int| from <= j < i ==> ws_char(s[j]),
        i == s.len() || !ws_char(s[i]),
    ensures
        ws_run_end(s, from) == i,
    decreases s.len() - from,
{
    if from < s.len() && ws_char(s[from]) {
        lemma_ws_run_end_at(s, from + 1, i);
    }
}

/// Any index with the trailing-whitespace-run properties is the run's
/// start.
proof fn lemma_ws_run_start_at(s: Seq<char>, upto: int, i: int)
    requires
        0 <= i <= upto <= s.len(),
        forall|j: int| i <= j < upto ==> ws_char(s[j]),
        i == 0 || !ws_char(s[i - 1]),
    ensures
        ws_run_start(s, upto) == i,
    decreases upto,
{
    if upto > 0 && ws_char(s[upto - 1]) {
        lemma_ws_run_start_at(s, upto - 1, i);
    }
}

/// Returns `s` with leading and trailing whitespace removed.
fn trim_exec<'a>(s: &'a str) -> (r: &'a str)
    ensures
        r@ == trimmed(s@),
{
    let n = s.unicode_len();
    let mut a: usize = 0;
    while a < n && is_ws_exec(s.get_char(a))
        invariant
            0 <= a <= n == s@.len(),
            forall|j: int| 0 <= j < a ==> ws_char(s@[j]),
        decreases n - a,
    {
        a = a + 1;
    }
    proof {
        lemma_ws_run_end_at(s@, 0, a as int);
    }
    let mut b: usize = n;
    while b > a && is_ws_exec(s.get_char(b - 1))
        invariant
            a <= b <= n == s@.len(),
            forall|j: int| b <= j < n ==> ws_char(s@[j]),
        decreases b,
    {
        b = b - 1;
    }
    if a == b {
        proof {
            if a < n {
                assert(!ws_char(s@[a as int]));
                assert(ws_char(s@[a as int]));
            }
            lemma_ws_run_start_at(s@, n as int, 0);
        }
        return s.substring_char(0, 0);
    }
    proof {
        assert(!ws_char(s@[b - 1]));
        lemma_ws_run_start_at(s@, n as int, b as int);
    }
    s.substring_char(a, b)
}

/// Whether `c` is ASCII whitespace.
fn is_ws_exec(c: char) -> (r: bool)
    ensures
        r == ws_char(c),
{
    c == ' ' || c == '\t' || c == '\r' || c == '\n'
}

/// The adapter name in one line of the comma-separated listing: the
/// second comma-separated field, trimmed; nothing for a line that is
/// blank, has no comma, or whose field trims to nothing.
pub open spec fn csv_line_name(line: Seq<char>) -> Option<Seq<char>> {
    let t = trimmed(line);
    if t.len() == 0 {
        Option::None
    } else {
        let c1 = index_of_from(t, 0, ',');
        if c1 == t.len() {
            Option::None
        } else {
            let c2 = index_of_from(t, c1 + 1, ',');
            let name = trimmed(t.subrange(c1 + 1, c2));
            if name.len() == 0 {
                Option::None
            } else {
                Option::Some(name)
            }
        }
    }
}

/// The adapter names in the comma-separated listing, skipping the
/// first `skip` lines (the tool's header).
pub open spec fn csv_gpu_names(s: Seq<char>, skip: nat) -> Seq<Seq<char>>
    decreases s.len(),
    via csv_gpu_names_decreases
{
    let p = index_of_from(s, 0, '\n');
    let here: Seq<Seq<char>> = if skip > 0 {
        Seq::<Seq<char>>::empty()
    } else {
        match csv_line_name(s.take(p)) {
            Option::Some(name) => seq![name],
            Option::None => Seq::<Seq<char>>::empty(),
        }
    };
    if p == s.len() {
        here
    } else {
        here + csv_gpu_names(s.skip(p + 1), if skip > 0 {
            (skip - 1) as nat
        } else {
            0
        })
    }
}

#[via_fn]
proof fn csv_gpu_names_decreases(s: Seq<char>, skip: nat) {
    if s.len() > 0 {
        lemma_index_of_from_props(s, 0, '\n');
    }
}

/// The vendor's display name.
pub open spec fn vendor_display(v: GpuVendor) -> Seq<char> {
    match v {
        GpuVendor::Nvidia => "NVIDIA"@,
        GpuVendor::Amd => "AMD"@,
        GpuVendor::Intel => "Intel"@,
        GpuVendor::Unknown => "Unknown"@,
    }
}

/// The adapter name in one line of the listing, as [`csv_line_name`]
/// accepts one.
fn csv_line_name_exec<'a>(line: &'a str) -> (r: Option<String>)
    ensures
        match r {
            Option::Some(name) => csv_line_name(line@) == Option::Some(name@),
            Option::None => csv_line_name(line@) is None,
        },
{
    let t = trim_exec(line);
    let n = t.unicode_len();
    if n == 0 {
        return Option::None;
    }
    let mut c1: usize = 0;
    while c1 < n && t.get_char(c1) != ','
        invariant
            0 <= c1 <= n == t@.len(),
            forall|j: int| 0 <= j < c1 ==> t@[j] != ',',
        decreases n - c1,
    {
        c1 = c1 + 1;
    }
    proof {
        lemma_index_of_from_at(t@, 0, ',', c1 as int);
    }
    if c1 == n {
        return Option::None;
    }
    let mut c2: usize = c1 + 1;
    while c2 < n && t.get_char(c2) != ','
        invariant
            c1 + 1 <= c2 <= n == t@.len(),
            forall|j: int| c1 + 1 <= j < c2 ==> t@[j] != ',',
        decreases n - c2,
    {
        c2 = c2 + 1;
    }
    proof {
        lemma_index_of_from_at(t@, c1 as int + 1, ',', c2 as int);
    }
    let field = t.substring_char(c1 + 1, c2);
    let name = trim_exec(field);
    if name.unicode_len() == 0 {
        return Option::None;
    }
    Option::Some(name.to_owned())
}

/// Parses the comma-separated adapter listing: one [`GpuSpecs`] per
/// named adapter after the first `skip` header lines, each classified
/// by the vendor marks its name carries.
pub fn parse_gpu_listing(text: &str, skip: usize) -> (r: Vec<GpuSpecs>)
    ensures
        r@.len() == csv_gpu_names(text@, skip as nat).len(),
        forall|i: int|
            0 <= i < r@.len() ==> {
                &&& (#[trigger] r@[i]).name@ == csv_gpu_names(text@, skip as nat)[i]
                &&& r@[i].vendor@ == vendor_display(
                    spec_vendor_of(csv_gpu_names(text@, skip as nat)[i]),
                )
            },
{
    let mut out: Vec<GpuSpecs> = Vec::new();
    let n = text.unicode_len();
    let mut pos: usize = 0;
    let mut to_skip: usize = skip;
    let mut done: bool = false;
    let ghost full = csv_gpu_names(text@, skip as nat);
    proof {
        assert(text@.skip(0) =~= text@);
        assert(names_of(out@) =~= Seq::<Seq<char>>::empty());
        assert(full =~= names_of(out@) + csv_gpu_names(text@.skip(0), skip as nat));
    }
    while !done
        invariant
            n == text@.len(),
            0 <= pos <= n,
            !done ==> full =~= names_of(out@) + csv_gpu_names(
                text@.skip(pos as int),
                to_skip as nat,
            ),
            done ==> full =~= names_of(out@),
            forall|i: int|
                0 <= i < out@.len() ==> (#[trigger] out@[i]).vendor@ == vendor_display(
                    spec_vendor_of(out@[i].name@),
                ),
        decreases n - pos, (if done {
            0int
        } else {
            1int
        }),
    {
        let mut p: usize = pos;
        while p < n && text.get_char(p) != '\n'
            invariant
                pos <= p <= n == text@.len(),
                forall|j: int| pos <= j < p ==> text@[j] != '\n',
            decreases n - p,
        {
            p = p + 1;
        }
        let ghost rest = text@.skip(pos as int);
        proof {
            assert(forall|j: int| 0 <= j < rest.len() ==> rest[j] == text@[j + pos]);
            lemma_index_of_from_at(rest, 0, '\n', p - pos);
        }
        let line = text.substring_char(pos, p);
        proof {
            assert(line@ =~= rest.take(p - pos));
        }
        let ghost out0 = out@;
        let ghost skip0 = to_skip as nat;
        if to_skip == 0 {
            match csv_line_name_exec(line) {
                Option::Some(name) => {
                    let vendor = vendor_name(vendor_of(name.as_str()));
                    let ghost g = GpuSpecs { name: name, vendor: vendor };
                    out.push(GpuSpecs { name, vendor });
                    proof {
                        assert(names_of(out@) =~= names_of(out0).push(out@.last().name@));
                    }
                },
                Option::None => (),
            }
        } else {
            to_skip = to_skip - 1;
        }
        if p < n {
            proof {
                assert(rest.skip(p - pos + 1) =~= text@.skip(p + 1));
                assert(full =~= names_of(out@) + csv_gpu_names(
                    text@.skip(p + 1),
                    to_skip as nat,
                ));
            }
            pos = p + 1;
        } else {
            done = true;
            proof {
                assert(full =~= names_of(out@));
            }
        }
    }
    proof {
        lemma_names_of_index(out@);
    }
    out
}

/// The names of a list of adapters.
pub open spec fn names_of(gs: Seq<GpuSpecs>) -> Seq<Seq<char>> {
    gs.map(|i: int, g: GpuSpecs| g.name@)
}

/// Each position of `names_of` is the adapter's name.
proof fn lemma_names_of_index(gs: Seq<GpuSpecs>)
    ensures
        names_of(gs).len() == gs.len(),
        forall|i: int| 0 <= i < gs.len() ==> names_of(gs)[i] == (#[trigger] gs[i]).name@,
{
}

/// The vendor's display name.
pub fn vendor_name(v: GpuVendor) -> (s: String)
    ensures
        v is Nvidia ==> s@ == "NVIDIA"@,
        v is Amd ==> s@ == "AMD"@,
        v is Intel ==> s@ == "Intel"@,
        v is Unknown ==> s@ == "Unknown"@,
{
    match v {
        GpuVendor::Nvidia => "NVIDIA".to_owned(),
        GpuVendor::Amd => "AMD".to_owned(),
        GpuVendor::Intel => "Intel".to_owned(),
        GpuVendor::Unknown => "Unknown".to_owned(),
    }
}

} // verus!
