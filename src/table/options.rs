//! Per-table options and their encoding as a string map.

use crate::decimal::{
    all_digits, decimal, digits_value, format_i64, format_u64, is_digit, leading_digits,
    lemma_decimal, lemma_digits_step, lemma_digits_value_prefix, lemma_i64_round_trip,
    lemma_leading_digits, parse_i64, parse_i64_spec, signed_decimal,
};
use vstd::prelude::*;
use vstd::string::*;

verus! {

pub const KIB: u64 = 1024;

pub const MIB: u64 = 1024 * 1024;

pub const GIB: u64 = 1024 * 1024 * 1024;

pub const TIB: u64 = 1024 * 1024 * 1024 * 1024;

pub const PIB: u64 = 1024 * 1024 * 1024 * 1024 * 1024;

/// A size in bytes, written with a binary unit.
#[derive(Clone, Copy, Debug, PartialEq, Eq, Structural)]
pub struct ReadableSize(pub u64);

impl ReadableSize {
    pub fn kb(count: u64) -> (r: ReadableSize)
        requires
            count * KIB <= u64::MAX,
        ensures
            r.0 == count * KIB,
    {
        ReadableSize(count * KIB)
    }

    pub fn mb(count: u64) -> (r: ReadableSize)
        requires
            count * MIB <= u64::MAX,
        ensures
            r.0 == count * MIB,
    {
        ReadableSize(count * MIB)
    }

    pub fn gb(count: u64) -> (r: ReadableSize)
        requires
            count * GIB <= u64::MAX,
        ensures
            r.0 == count * GIB,
    {
        ReadableSize(count * GIB)
    }

    pub fn as_bytes(&self) -> (r: u64)
        ensures
            r == self.0,
    {
        self.0
    }
}

/// The text of a size: the count of the largest binary unit that divides
/// it, then the unit (`0KiB` for zero).
pub open spec fn size_text(n: u64) -> Seq<char> {
    if n == 0 {
        "0KiB"@
    } else if n % PIB == 0 {
        decimal((n / PIB) as nat) + "PiB"@
    } else if n % TIB == 0 {
        decimal((n / TIB) as nat) + "TiB"@
    } else if n % GIB == 0 {
        decimal((n / GIB) as nat) + "GiB"@
    } else if n % MIB == 0 {
        decimal((n / MIB) as nat) + "MiB"@
    } else if n % KIB == 0 {
        decimal((n / KIB) as nat) + "KiB"@
    } else {
        decimal(n as nat) + "B"@
    }
}

/// The bytes of a unit: `B` or nothing, `K`/`KB`/`KiB`, `M`/`MB`/`MiB`,
/// `G`/`GB`/`GiB`, `T`/`TB`/`TiB`, `P`/`PB`/`PiB`.
pub open spec fn unit_bytes(u: Seq<char>) -> Option<u64> {
    if u == ""@ || u == "B"@ {
        Some(1)
    } else if u == "K"@ || u == "KB"@ || u == "KiB"@ {
        Some(KIB)
    } else if u == "M"@ || u == "MB"@ || u == "MiB"@ {
        Some(MIB)
    } else if u == "G"@ || u == "GB"@ || u == "GiB"@ {
        Some(GIB)
    } else if u == "T"@ || u == "TB"@ || u == "TiB"@ {
        Some(TIB)
    } else if u == "P"@ || u == "PB"@ || u == "PiB"@ {
        Some(PIB)
    } else {
        None
    }
}

/// The size that `s` denotes: a count in decimal digits, then a unit.
pub open spec fn parse_size_spec(s: Seq<char>) -> Option<u64> {
    let k = leading_digits(s) as int;
    if k == 0 {
        None
    } else {
        match unit_bytes(s.subrange(k, s.len() as int)) {
            None => None,
            Some(m) => {
                let v = digits_value(s.subrange(0, k)) * m;
                if v <= u64::MAX {
                    Some(v as u64)
                } else {
                    None
                }
            },
        }
    }
}

/// The text of a size.
pub fn format_size(size: ReadableSize) -> (r: String)
    ensures
        r@ == size_text(size.0),
{
    let n = size.0;
    if n == 0 {
        return String::from_str("0KiB");
    }
    let (count, unit): (u64, &str) = if n % PIB == 0 {
        (n / PIB, "PiB")
    } else if n % TIB == 0 {
        (n / TIB, "TiB")
    } else if n % GIB == 0 {
        (n / GIB, "GiB")
    } else if n % MIB == 0 {
        (n / MIB, "MiB")
    } else if n % KIB == 0 {
        (n / KIB, "KiB")
    } else {
        (n, "B")
    };
    let mut text = format_u64(count);
    text.append(unit);
    text
}

fn str_is(s: &str, lit: &str) -> (r: bool)
    ensures
        r == (s@ == lit@),
{
    String::from_str(s) == String::from_str(lit)
}

fn unit_of(u: &str) -> (r: Option<u64>)
    ensures
        r == unit_bytes(u@),
{
    if str_is(u, "") || str_is(u, "B") {
        Some(1)
    } else if str_is(u, "K") || str_is(u, "KB") || str_is(u, "KiB") {
        Some(KIB)
    } else if str_is(u, "M") || str_is(u, "MB") || str_is(u, "MiB") {
        Some(MIB)
    } else if str_is(u, "G") || str_is(u, "GB") || str_is(u, "GiB") {
        Some(GIB)
    } else if str_is(u, "T") || str_is(u, "TB") || str_is(u, "TiB") {
        Some(TIB)
    } else if str_is(u, "P") || str_is(u, "PB") || str_is(u, "PiB") {
        Some(PIB)
    } else {
        None
    }
}

proof fn lemma_leading_digits_bound(s: Seq<char>)
    ensures
        leading_digits(s) <= s.len(),
        all_digits(s.subrange(0, leading_digits(s) as int)),
        leading_digits(s) < s.len() ==> !is_digit(s[leading_digits(s) as int]),
    decreases s.len(),
{
    if s.len() > 0 && is_digit(s[0]) {
        let t = s.subrange(1, s.len() as int);
        lemma_leading_digits_bound(t);
        let k = leading_digits(s) as int;
        assert forall|i: int| 0 <= i < k implies is_digit(#[trigger] s.subrange(0, k)[i]) by {
            if i > 0 {
                assert(s.subrange(0, k)[i] == t.subrange(0, k - 1)[i - 1]);
            }
        }
        if k < s.len() {
            assert(s[k] == t[k - 1]);
        }
    }
}

/// Reads a size: decimal digits, then a unit.
pub fn parse_size(s: &str) -> (r: Option<ReadableSize>)
    ensures
        match r {
            Some(size) => parse_size_spec(s@) == Some(size.0),
            None => parse_size_spec(s@) is None,
        },
{
    let n = s.unicode_len();
    proof {
        lemma_leading_digits_bound(s@);
    }
    let ghost k = leading_digits(s@) as int;
    let mut acc: u128 = 0;
    let mut i: usize = 0;
    while i < n && ('0' <= s.get_char(i) && s.get_char(i) <= '9')
        invariant
            i <= n,
            n == s@.len(),
            k == leading_digits(s@),
            k <= n,
            all_digits(s@.subrange(0, k)),
            k < n ==> !is_digit(s@[k]),
            i <= k,
            acc == digits_value(s@.subrange(0, i as int)),
            acc <= u64::MAX as u128,
        decreases n - i,
    {
        proof {
            if i == k {
                assert(false);
            }
            lemma_digits_step(s@, 0, i as int);
        }
        let c = s.get_char(i);
        acc = acc * 10 + (c as u32 - '0' as u32) as u128;
        i = i + 1;
        if acc > u64::MAX as u128 {
            proof {
                assert(s@.subrange(0, i as int) =~= s@.subrange(0, k).subrange(0, i as int));
                lemma_digits_value_prefix(s@.subrange(0, k), i as int);
                assert(digits_value(s@.subrange(0, k)) > u64::MAX);
                if let Some(m) = unit_bytes(s@.subrange(k, s@.len() as int)) {
                    assert(digits_value(s@.subrange(0, k)) * m >= digits_value(s@.subrange(0, k)))
                        by (nonlinear_arith)
                        requires
                            m >= 1,
                    ;
                }
            }
            return None;
        }
    }
    proof {
        if i < k {
            assert(is_digit(s@.subrange(0, k)[i as int]));
            assert(s@.subrange(0, k)[i as int] == s@[i as int]);
        }
    }
    if i == 0 {
        return None;
    }
    let rest = s.substring_char(i, n);
    let unit = match unit_of(rest) {
        Some(u) => u,
        None => {
            return None;
        },
    };
    assert((acc as int) * (unit as int) <= (u64::MAX as int) * (PIB as int)) by (nonlinear_arith)
        requires
            acc <= u64::MAX,
            unit <= PIB,
    ;
    let total: u128 = acc * unit as u128;
    if total > u64::MAX as u128 {
        return None;
    }
    Some(ReadableSize(total as u64))
}

proof fn lemma_unit_texts()
    ensures
        unit_bytes("B"@) == Some(1u64),
        unit_bytes("KiB"@) == Some(KIB),
        unit_bytes("MiB"@) == Some(MIB),
        unit_bytes("GiB"@) == Some(GIB),
        unit_bytes("TiB"@) == Some(TIB),
        unit_bytes("PiB"@) == Some(PIB),
{
    reveal_strlit("");
    reveal_strlit("B");
    reveal_strlit("K");
    reveal_strlit("KB");
    reveal_strlit("KiB");
    reveal_strlit("M");
    reveal_strlit("MB");
    reveal_strlit("MiB");
    reveal_strlit("G");
    reveal_strlit("GB");
    reveal_strlit("GiB");
    reveal_strlit("T");
    reveal_strlit("TB");
    reveal_strlit("TiB");
    reveal_strlit("P");
    reveal_strlit("PB");
    reveal_strlit("PiB");
    assert(""@.len() == 0 && "B"@.len() == 1 && "K"@.len() == 1 && "KB"@.len() == 2);
    assert("M"@.len() == 1 && "MB"@.len() == 2 && "G"@.len() == 1 && "GB"@.len() == 2);
    assert("T"@.len() == 1 && "TB"@.len() == 2 && "P"@.len() == 1 && "PB"@.len() == 2);
    assert("KiB"@.len() == 3 && "MiB"@.len() == 3 && "GiB"@.len() == 3);
    assert("TiB"@.len() == 3 && "PiB"@.len() == 3);
    assert("KiB"@ != ""@ && "KiB"@ != "B"@);
    assert("MiB"@ != "K"@ && "MiB"@ != "KB"@);
    assert("MiB"@[0] != "KiB"@[0]);
    assert("GiB"@[0] != "KiB"@[0] && "GiB"@[0] != "MiB"@[0]);
    assert("TiB"@[0] != "KiB"@[0] && "TiB"@[0] != "MiB"@[0] && "TiB"@[0] != "GiB"@[0]);
    assert("PiB"@[0] != "KiB"@[0] && "PiB"@[0] != "MiB"@[0] && "PiB"@[0] != "GiB"@[0]
        && "PiB"@[0] != "TiB"@[0]);
}

/// `parse_size_spec` reads back what `format_size` writes.
pub proof fn lemma_size_round_trip(n: u64)
    ensures
        parse_size_spec(size_text(n)) == Some(n),
{
    let (q, unit, m): (nat, Seq<char>, u64) = if n == 0 {
        (0, "KiB"@, KIB)
    } else if n % PIB == 0 {
        ((n / PIB) as nat, "PiB"@, PIB)
    } else if n % TIB == 0 {
        ((n / TIB) as nat, "TiB"@, TIB)
    } else if n % GIB == 0 {
        ((n / GIB) as nat, "GiB"@, GIB)
    } else if n % MIB == 0 {
        ((n / MIB) as nat, "MiB"@, MIB)
    } else if n % KIB == 0 {
        ((n / KIB) as nat, "KiB"@, KIB)
    } else {
        (n as nat, "B"@, 1)
    };
    reveal_strlit("0KiB");
    reveal_strlit("KiB");
    reveal_strlit("PiB");
    reveal_strlit("TiB");
    reveal_strlit("GiB");
    reveal_strlit("MiB");
    reveal_strlit("B");
    reveal_strlit("");
    reveal_strlit("K");
    reveal_strlit("KB");
    reveal_strlit("M");
    reveal_strlit("MB");
    reveal_strlit("G");
    reveal_strlit("GB");
    reveal_strlit("T");
    reveal_strlit("TB");
    reveal_strlit("P");
    reveal_strlit("PB");
    lemma_unit_texts();
    lemma_decimal(q);
    let s = size_text(n);
    assert(s =~= decimal(q) + unit) by {
        if n == 0 {
            assert(decimal(0) =~= seq!['0']);
        }
    }
    lemma_leading_digits(decimal(q), unit);
    let k = decimal(q).len() as int;
    assert(s.subrange(0, k) =~= decimal(q));
    assert(s.subrange(k, s.len() as int) =~= unit);
    assert(q * m == n) by (nonlinear_arith)
        requires
            (n == 0 && q == 0) || (m > 0 && n % m == 0 && q == n / m) || (m == 1 && q == n),
    ;
}

/// Whether a key is one that the options read or strip.
pub open spec fn is_reserved_key(k: Seq<char>) -> bool {
    k == WRITE_BUFFER_SIZE_KEY@ || k == TTL_KEY@ || k == REGIONS_KEY@ || k
        == COMPACTION_TIME_WINDOW_KEY@
}


pub const WRITE_BUFFER_SIZE_KEY: &'static str = "write_buffer_size";

pub const TTL_KEY: &'static str = "ttl";

pub const REGIONS_KEY: &'static str = "regions";

pub const COMPACTION_TIME_WINDOW_KEY: &'static str = "compaction_time_window";

/// What a duration text denotes, as whole seconds and nanoseconds; `None`
/// where it is not a duration.
pub uninterp spec fn humantime_value(s: Seq<char>) -> Option<(u64, u32)>;

/// The text of a duration of `secs` seconds and `nanos` nanoseconds.
pub uninterp spec fn humantime_text(secs: u64, nanos: u32) -> Seq<char>;

/// A time-to-live: whole seconds and the nanoseconds below a second.
#[derive(Clone, Copy, Debug, PartialEq, Eq, Structural)]
pub struct Ttl {
    pub secs: u64,
    pub nanos: u32,
}

impl Ttl {
    pub fn from_secs(secs: u64) -> (r: Ttl)
        ensures
            r.secs == secs,
            r.nanos == 0,
    {
        Ttl { secs, nanos: 0 }
    }
}

/// Relies on `humantime::format_duration`: the text it writes for the
/// duration, which its documentation guarantees `parse_duration` reads
/// back as the same value.
#[verifier::external_body]
fn format_ttl(ttl: Ttl) -> (r: String)
    requires
        ttl.nanos < 1_000_000_000,
    ensures
        r@ == humantime_text(ttl.secs, ttl.nanos),
        humantime_value(r@) == Some((ttl.secs, ttl.nanos)),
{
    humantime::format_duration(std::time::Duration::new(ttl.secs, ttl.nanos)).to_string()
}

/// The number of decimal digits in `s`.
pub open spec fn digit_count(s: Seq<char>) -> nat
    decreases s.len(),
{
    if s.len() == 0 {
        0
    } else {
        digit_count(s.drop_last()) + if is_digit(s.last()) {
            1nat
        } else {
            0nat
        }
    }
}

/// The most digits a ttl text may hold. With at most this many digits the
/// numbers of a duration text sum below `10^11`, so even counted in years
/// the seconds stay far below `u64::MAX`, where `parse_duration` would
/// overflow while carrying nanoseconds.
pub const TTL_MAX_DIGITS: usize = 11;

fn count_digits(s: &str) -> (r: usize)
    ensures
        r == digit_count(s@),
{
    let n = s.unicode_len();
    let mut count: usize = 0;
    let mut i: usize = 0;
    while i < n
        invariant
            i <= n,
            n == s@.len(),
            count == digit_count(s@.subrange(0, i as int)),
            count <= i,
        decreases n - i,
    {
        let c = s.get_char(i);
        assert(s@.subrange(0, i + 1).drop_last() =~= s@.subrange(0, i as int));
        if '0' <= c && c <= '9' {
            count = count + 1;
        }
        i = i + 1;
    }
    assert(s@.subrange(0, i as int) =~= s@);
    count
}

/// Relies on `humantime::parse_duration`: the duration a text denotes, or
/// an error; the nanoseconds of a `Duration` stay below a second. Its
/// seconds sum panics when it reaches `u64::MAX` while carrying a whole
/// second of nanoseconds; texts with few digits never come near.
#[verifier::external_body]
fn parse_ttl(s: &str) -> (r: Option<Ttl>)
    requires
        digit_count(s@) <= TTL_MAX_DIGITS,
    ensures
        match r {
            Some(t) => humantime_value(s@) == Some((t.secs, t.nanos)) && t.nanos < 1_000_000_000,
            None => humantime_value(s@) is None,
        },
{
    match humantime::parse_duration(s) {
        Ok(d) => Some(Ttl { secs: d.as_secs(), nanos: d.subsec_nanos() }),
        Err(_) => None,
    }
}

/// The option whose value could not be read.
#[derive(Clone, Copy, Debug, PartialEq, Eq, Structural)]
pub enum OptionKey {
    WriteBufferSize,
    Ttl,
    CompactionTimeWindow,
}

/// Why a table request was refused.
#[derive(Clone, Copy, Debug, PartialEq, Eq, Structural)]
pub enum TableError {
    /// An option's value is malformed.
    ParseTableOption { key: OptionKey },
}

/// Options of a table.
#[derive(Debug, PartialEq)]
pub struct TableOptions {
    /// Size of a memtable.
    pub write_buffer_size: Option<ReadableSize>,
    /// How long data lives; older data is purged.
    pub ttl: Option<Ttl>,
    /// Options that not every engine reads, by key.
    pub extra_options: Vec<(String, String)>,
    /// Time window of compaction.
    pub compaction_time_window: Option<i64>,
}

pub struct OptionsView {
    pub write_buffer_size: Option<u64>,
    pub ttl: Option<(u64, u32)>,
    pub extra_options: Seq<(Seq<char>, Seq<char>)>,
    pub compaction_time_window: Option<i64>,
}

pub open spec fn entries_view(m: Seq<(String, String)>) -> Seq<(Seq<char>, Seq<char>)> {
    m.map_values(|e: (String, String)| (e.0@, e.1@))
}

impl View for TableOptions {
    type V = OptionsView;

    open spec fn view(&self) -> OptionsView {
        OptionsView {
            write_buffer_size: match self.write_buffer_size {
                Some(s) => Some(s.0),
                None => None,
            },
            ttl: match self.ttl {
                Some(t) => Some((t.secs, t.nanos)),
                None => None,
            },
            extra_options: entries_view(self.extra_options@),
            compaction_time_window: self.compaction_time_window,
        }
    }
}

/// Whether no two entries of `m` have the same key.
pub open spec fn keys_unique(m: Seq<(Seq<char>, Seq<char>)>) -> bool {
    forall|i: int, j: int| 0 <= i < j < m.len() ==> (#[trigger] m[i]).0 != (#[trigger] m[j]).0
}

/// Whether no key of `m` is one that the options read or strip.
pub open spec fn no_reserved_keys(m: Seq<(Seq<char>, Seq<char>)>) -> bool {
    forall|i: int| 0 <= i < m.len() ==> !is_reserved_key(#[trigger] m[i].0)
}

impl OptionsView {
    /// A ttl whose nanoseconds stay below a second.
    pub open spec fn ttl_fits(&self) -> bool {
        match self.ttl {
            Some((_, n)) => n < 1_000_000_000,
            None => true,
        }
    }

    /// Options as reading a map gives them: a ttl below a second of
    /// nanoseconds, and extra keys that are distinct and not reserved.
    pub open spec fn wf(&self) -> bool {
        &&& self.ttl_fits()
        &&& no_reserved_keys(self.extra_options)
        &&& keys_unique(self.extra_options)
    }
}

/// The value of the first entry with key `k`.
pub open spec fn lookup(m: Seq<(Seq<char>, Seq<char>)>, k: Seq<char>) -> Option<Seq<char>>
    decreases m.len(),
{
    if m.len() == 0 {
        None
    } else if m[0].0 == k {
        Some(m[0].1)
    } else {
        lookup(m.subrange(1, m.len() as int), k)
    }
}

/// The entries whose keys are not reserved, in order.
pub open spec fn extra_entries(m: Seq<(Seq<char>, Seq<char>)>) -> Seq<(Seq<char>, Seq<char>)>
    decreases m.len(),
{
    if m.len() == 0 {
        Seq::empty()
    } else if is_reserved_key(m.last().0) {
        extra_entries(m.drop_last())
    } else {
        extra_entries(m.drop_last()).push(m.last())
    }
}

/// The options that a string map encodes, or the first option (in the
/// order write buffer size, ttl, compaction time window) whose value is
/// malformed.
pub open spec fn options_from_map(m: Seq<(Seq<char>, Seq<char>)>) -> Result<OptionsView, OptionKey> {
    let wbs = lookup(m, WRITE_BUFFER_SIZE_KEY@);
    let ttl = lookup(m, TTL_KEY@);
    let ctw = lookup(m, COMPACTION_TIME_WINDOW_KEY@);
    if wbs is Some && parse_size_spec(wbs.unwrap()) is None {
        Err(OptionKey::WriteBufferSize)
    } else if ttl is Some && (digit_count(ttl.unwrap()) > TTL_MAX_DIGITS || humantime_value(
        ttl.unwrap(),
    ) is None) {
        Err(OptionKey::Ttl)
    } else if ctw is Some && parse_i64_spec(ctw.unwrap()) is None {
        Err(OptionKey::CompactionTimeWindow)
    } else {
        Ok(
            OptionsView {
                write_buffer_size: match wbs {
                    Some(v) => parse_size_spec(v),
                    None => None,
                },
                ttl: match ttl {
                    Some(v) => humantime_value(v),
                    None => None,
                },
                extra_options: extra_entries(m),
                compaction_time_window: match ctw {
                    Some(v) => parse_i64_spec(v),
                    None => None,
                },
            },
        )
    }
}

/// The string map of options: the set options, then the extra ones.
pub open spec fn options_to_map(o: OptionsView) -> Seq<(Seq<char>, Seq<char>)> {
    let wbs = match o.write_buffer_size {
        Some(n) => seq![(WRITE_BUFFER_SIZE_KEY@, size_text(n))],
        None => Seq::empty(),
    };
    let ttl = match o.ttl {
        Some((s, n)) => seq![(TTL_KEY@, humantime_text(s, n))],
        None => Seq::empty(),
    };
    let ctw = match o.compaction_time_window {
        Some(t) => seq![(COMPACTION_TIME_WINDOW_KEY@, signed_decimal(t as int))],
        None => Seq::empty(),
    };
    wbs + ttl + ctw + o.extra_options
}

/// Whether the text the options' ttl is written as reads back as the ttl.
pub open spec fn ttl_text_reads_back(o: OptionsView) -> bool {
    match o.ttl {
        Some((secs, nanos)) => humantime_value(humantime_text(secs, nanos)) == Some((secs, nanos)),
        None => true,
    }
}

/// Each extra entry is an entry of the map.
proof fn lemma_extra_entries_from(m: Seq<(Seq<char>, Seq<char>)>)
    ensures
        forall|i: int|
            0 <= i < extra_entries(m).len() ==> m.contains(#[trigger] extra_entries(m)[i]),
        forall|i: int| 0 <= i < extra_entries(m).len() ==> !is_reserved_key(#[trigger] extra_entries(m)[i].0),
    decreases m.len(),
{
    if m.len() > 0 {
        lemma_extra_entries_from(m.drop_last());
        let e = extra_entries(m.drop_last());
        assert forall|i: int| 0 <= i < e.len() implies m.contains(#[trigger] e[i]) by {
            let j = choose|j: int| 0 <= j < m.drop_last().len() && m.drop_last()[j] == e[i];
            assert(m[j] == e[i]);
        }
        assert(m[m.len() - 1] == m.last());
    }
}

/// The extra entries of a map with distinct keys have distinct, unreserved
/// keys.
proof fn lemma_extra_entries_wf(m: Seq<(Seq<char>, Seq<char>)>)
    ensures
        no_reserved_keys(extra_entries(m)),
        keys_unique(m) ==> keys_unique(extra_entries(m)),
    decreases m.len(),
{
    lemma_extra_entries_from(m);
    if m.len() > 0 {
        let t = m.drop_last();
        lemma_extra_entries_wf(t);
        lemma_extra_entries_from(t);
        if keys_unique(m) {
            assert(keys_unique(t)) by {
                assert forall|i: int, j: int| 0 <= i < j < t.len() implies (#[trigger] t[i]).0 != (#[trigger] t[j]).0 by {
                    assert(t[i] == m[i] && t[j] == m[j]);
                }
            }
            let e = extra_entries(t);
            if !is_reserved_key(m.last().0) {
                assert forall|i: int| 0 <= i < e.len() implies (#[trigger] e[i]).0 != m.last().0 by {
                    let j = choose|j: int| 0 <= j < t.len() && t[j] == e[i];
                    assert(m[j] == t[j]);
                    assert(m[m.len() - 1] == m.last());
                }
                let r = e.push(m.last());
                assert forall|i: int, j: int| 0 <= i < j < r.len() implies (#[trigger] r[i]).0 != (#[trigger] r[j]).0 by {
                    if j == r.len() - 1 {
                        assert(r[i] == e[i]);
                    } else {
                        assert(r[i] == e[i] && r[j] == e[j]);
                    }
                }
            }
        }
    }
}

proof fn lemma_lookup_concat(a: Seq<(Seq<char>, Seq<char>)>, b: Seq<(Seq<char>, Seq<char>)>, k: Seq<char>)
    ensures
        lookup(a + b, k) == if lookup(a, k) is Some {
            lookup(a, k)
        } else {
            lookup(b, k)
        },
    decreases a.len(),
{
    if a.len() == 0 {
        assert(a + b =~= b);
    } else {
        assert((a + b)[0] == a[0]);
        assert((a + b).subrange(1, (a + b).len() as int) =~= a.subrange(1, a.len() as int) + b);
        lemma_lookup_concat(a.subrange(1, a.len() as int), b, k);
    }
}

proof fn lemma_lookup_small(m: Seq<(Seq<char>, Seq<char>)>)
    requires
        m.len() <= 1,
    ensures
        forall|k: Seq<char>| #[trigger] lookup(m, k) == if m.len() == 1 && m[0].0 == k {
            Some(m[0].1)
        } else {
            None::<Seq<char>>
        },
{
    assert forall|k: Seq<char>| #[trigger] lookup(m, k) == if m.len() == 1 && m[0].0 == k {
        Some(m[0].1)
    } else {
        None::<Seq<char>>
    } by {
        if m.len() == 1 {
            assert(lookup(m.subrange(1, 1), k) is None);
        }
    }
}

proof fn lemma_lookup_absent(m: Seq<(Seq<char>, Seq<char>)>, k: Seq<char>)
    requires
        no_reserved_keys(m),
        is_reserved_key(k),
    ensures
        lookup(m, k) is None,
    decreases m.len(),
{
    if m.len() > 0 {
        let t = m.subrange(1, m.len() as int);
        assert forall|i: int| 0 <= i < t.len() implies !is_reserved_key(#[trigger] t[i].0) by {
            assert(t[i] == m[i + 1]);
        }
        lemma_lookup_absent(t, k);
    }
}

proof fn lemma_extra_concat(a: Seq<(Seq<char>, Seq<char>)>, b: Seq<(Seq<char>, Seq<char>)>)
    ensures
        extra_entries(a + b) == extra_entries(a) + extra_entries(b),
    decreases b.len(),
{
    if b.len() == 0 {
        assert(a + b =~= a);
        assert(extra_entries(a) + extra_entries(b) =~= extra_entries(a));
    } else {
        assert((a + b).drop_last() =~= a + b.drop_last());
        assert((a + b).last() == b.last());
        lemma_extra_concat(a, b.drop_last());
        if !is_reserved_key(b.last().0) {
            assert(extra_entries(a) + extra_entries(b) =~= (extra_entries(a) + extra_entries(
                b.drop_last(),
            )).push(b.last()));
        }
    }
}

proof fn lemma_extra_all(m: Seq<(Seq<char>, Seq<char>)>)
    requires
        no_reserved_keys(m),
    ensures
        extra_entries(m) == m,
    decreases m.len(),
{
    if m.len() > 0 {
        let t = m.drop_last();
        assert forall|i: int| 0 <= i < t.len() implies !is_reserved_key(#[trigger] t[i].0) by {
            assert(t[i] == m[i]);
        }
        lemma_extra_all(t);
        assert(!is_reserved_key(m[m.len() - 1].0));
        assert(t.push(m.last()) =~= m);
    }
}

/// Encoding options as a string map and reading the map back gives the
/// same options, for options whose ttl text reads back (what `to_map`
/// ensures), is short enough to be read, and whose extra keys are not
/// reserved.
pub proof fn lemma_table_options_round_trip(o: OptionsView)
    requires
        o.wf(),
        ttl_text_reads_back(o),
        match o.ttl {
            Some((secs, nanos)) => digit_count(humantime_text(secs, nanos)) <= TTL_MAX_DIGITS,
            None => true,
        },
    ensures
        options_from_map(options_to_map(o)) == Ok::<OptionsView, OptionKey>(o),
{
    reveal_strlit("write_buffer_size");
    reveal_strlit("ttl");
    reveal_strlit("regions");
    reveal_strlit("compaction_time_window");
    let wbs: Seq<(Seq<char>, Seq<char>)> = match o.write_buffer_size {
        Some(n) => seq![(WRITE_BUFFER_SIZE_KEY@, size_text(n))],
        None => Seq::empty(),
    };
    let ttl: Seq<(Seq<char>, Seq<char>)> = match o.ttl {
        Some((s, n)) => seq![(TTL_KEY@, humantime_text(s, n))],
        None => Seq::empty(),
    };
    let ctw: Seq<(Seq<char>, Seq<char>)> = match o.compaction_time_window {
        Some(t) => seq![(COMPACTION_TIME_WINDOW_KEY@, signed_decimal(t as int))],
        None => Seq::empty(),
    };
    let m = options_to_map(o);
    assert(m =~= wbs + (ttl + (ctw + o.extra_options)));
    assert(WRITE_BUFFER_SIZE_KEY@.len() == 17);
    assert(TTL_KEY@.len() == 3);
    assert(COMPACTION_TIME_WINDOW_KEY@.len() == 22);
    assert(WRITE_BUFFER_SIZE_KEY@ != TTL_KEY@);
    assert(WRITE_BUFFER_SIZE_KEY@ != COMPACTION_TIME_WINDOW_KEY@);
    assert(TTL_KEY@ != COMPACTION_TIME_WINDOW_KEY@);
    let rest3 = o.extra_options;
    let rest2 = ctw + rest3;
    let rest1 = ttl + rest2;
    lemma_lookup_absent(rest3, WRITE_BUFFER_SIZE_KEY@);
    lemma_lookup_absent(rest3, TTL_KEY@);
    lemma_lookup_absent(rest3, COMPACTION_TIME_WINDOW_KEY@);
    lemma_lookup_concat(ctw, rest3, WRITE_BUFFER_SIZE_KEY@);
    lemma_lookup_concat(ctw, rest3, TTL_KEY@);
    lemma_lookup_concat(ctw, rest3, COMPACTION_TIME_WINDOW_KEY@);
    lemma_lookup_concat(ttl, rest2, WRITE_BUFFER_SIZE_KEY@);
    lemma_lookup_concat(ttl, rest2, TTL_KEY@);
    lemma_lookup_concat(ttl, rest2, COMPACTION_TIME_WINDOW_KEY@);
    lemma_lookup_concat(wbs, rest1, WRITE_BUFFER_SIZE_KEY@);
    lemma_lookup_concat(wbs, rest1, TTL_KEY@);
    lemma_lookup_concat(wbs, rest1, COMPACTION_TIME_WINDOW_KEY@);
    lemma_lookup_small(wbs);
    lemma_lookup_small(ttl);
    lemma_lookup_small(ctw);
    assert(lookup(m, WRITE_BUFFER_SIZE_KEY@) == lookup(wbs, WRITE_BUFFER_SIZE_KEY@));
    assert(lookup(m, TTL_KEY@) == lookup(ttl, TTL_KEY@));
    assert(lookup(m, COMPACTION_TIME_WINDOW_KEY@) == lookup(ctw, COMPACTION_TIME_WINDOW_KEY@));
    if let Some(n) = o.write_buffer_size {
        lemma_size_round_trip(n);
    }
    if let Some(t) = o.compaction_time_window {
        lemma_i64_round_trip(t);
    }
    lemma_extra_concat(wbs, ttl + (ctw + o.extra_options));
    lemma_extra_concat(ttl, ctw + o.extra_options);
    lemma_extra_concat(ctw, o.extra_options);
    lemma_extra_all(o.extra_options);
    assert(extra_entries(wbs) =~= Seq::<(Seq<char>, Seq<char>)>::empty()) by {
        if o.write_buffer_size is Some {
            assert(wbs.drop_last() =~= Seq::<(Seq<char>, Seq<char>)>::empty());
            assert(is_reserved_key(wbs.last().0));
            assert(extra_entries(wbs.drop_last()) =~= Seq::<(Seq<char>, Seq<char>)>::empty());
        }
    }
    assert(extra_entries(ttl) =~= Seq::<(Seq<char>, Seq<char>)>::empty()) by {
        if o.ttl is Some {
            assert(ttl.drop_last() =~= Seq::<(Seq<char>, Seq<char>)>::empty());
            assert(is_reserved_key(ttl.last().0));
            assert(extra_entries(ttl.drop_last()) =~= Seq::<(Seq<char>, Seq<char>)>::empty());
        }
    }
    assert(extra_entries(ctw) =~= Seq::<(Seq<char>, Seq<char>)>::empty()) by {
        if o.compaction_time_window is Some {
            assert(ctw.drop_last() =~= Seq::<(Seq<char>, Seq<char>)>::empty());
            assert(is_reserved_key(ctw.last().0));
            assert(extra_entries(ctw.drop_last()) =~= Seq::<(Seq<char>, Seq<char>)>::empty());
        }
    }
    assert(extra_entries(m) =~= o.extra_options);
}

fn find_entry<'a>(m: &'a Vec<(String, String)>, key: &str) -> (r: Option<&'a String>)
    ensures
        match r {
            Some(v) => lookup(entries_view(m@), key@) == Some(v@),
            None => lookup(entries_view(m@), key@) is None,
        },
{
    let ghost es = entries_view(m@);
    let k = String::from_str(key);
    assert(es.subrange(0, es.len() as int) =~= es);
    let mut i: usize = 0;
    while i < m.len()
        invariant
            i <= m@.len(),
            es == entries_view(m@),
            k@ == key@,
            lookup(es, key@) == lookup(es.subrange(i as int, es.len() as int), key@),
        decreases m@.len() - i,
    {
        let ghost tail = es.subrange(i as int, es.len() as int);
        assert(tail[0] == es[i as int]);
        assert(tail.subrange(1, tail.len() as int) =~= es.subrange(i + 1, es.len() as int));
        if m[i].0 == k {
            return Some(&m[i].1);
        }
        i = i + 1;
    }
    assert(es.subrange(i as int, es.len() as int) =~= Seq::<(Seq<char>, Seq<char>)>::empty());
    None
}

fn is_reserved(k: &String) -> (r: bool)
    ensures
        r == is_reserved_key(k@),
{
    *k == String::from_str(WRITE_BUFFER_SIZE_KEY) || *k == String::from_str(TTL_KEY) || *k
        == String::from_str(REGIONS_KEY) || *k == String::from_str(COMPACTION_TIME_WINDOW_KEY)
}

impl TableOptions {
    /// No option set.
    pub fn new() -> (r: TableOptions)
        ensures
            r@.write_buffer_size is None,
            r@.ttl is None,
            r@.extra_options.len() == 0,
            r@.compaction_time_window is None,
    {
        TableOptions {
            write_buffer_size: None,
            ttl: None,
            extra_options: Vec::new(),
            compaction_time_window: None,
        }
    }

    /// Reads options from a string map: `write_buffer_size` (a size),
    /// `ttl` (a duration), `compaction_time_window` (an integer); `regions`
    /// is dropped and every other entry kept as an extra option.
    pub fn try_from(value: &Vec<(String, String)>) -> (r: Result<TableOptions, TableError>)
        ensures
            keys_unique(entries_view(value@)) ==> (r matches Ok(t) ==> t@.wf()),
            match options_from_map(entries_view(value@)) {
                Ok(o) => r matches Ok(t) && t@ == o,
                Err(k) => r == Err::<TableOptions, TableError>(
                    TableError::ParseTableOption { key: k },
                ),
            },
    {
        let mut options = TableOptions::new();
        match find_entry(value, WRITE_BUFFER_SIZE_KEY) {
            Some(v) => match parse_size(v.as_str()) {
                Some(size) => {
                    options.write_buffer_size = Some(size);
                },
                None => {
                    return Err(TableError::ParseTableOption { key: OptionKey::WriteBufferSize });
                },
            },
            None => {},
        }
        match find_entry(value, TTL_KEY) {
            Some(v) => match if count_digits(v.as_str()) <= TTL_MAX_DIGITS {
                parse_ttl(v.as_str())
            } else {
                None
            } {
                Some(t) => {
                    options.ttl = Some(t);
                },
                None => {
                    return Err(TableError::ParseTableOption { key: OptionKey::Ttl });
                },
            },
            None => {},
        }
        match find_entry(value, COMPACTION_TIME_WINDOW_KEY) {
            Some(v) => match parse_i64(v.as_str()) {
                Some(t) => {
                    options.compaction_time_window = Some(t);
                },
                None => {
                    return Err(
                        TableError::ParseTableOption { key: OptionKey::CompactionTimeWindow },
                    );
                },
            },
            None => {},
        }
        let ghost es = entries_view(value@);
        let mut extra: Vec<(String, String)> = Vec::new();
        let mut i: usize = 0;
        while i < value.len()
            invariant
                i <= value@.len(),
                es == entries_view(value@),
                entries_view(extra@) == extra_entries(es.subrange(0, i as int)),
            decreases value@.len() - i,
        {
            assert(es.subrange(0, i + 1).drop_last() =~= es.subrange(0, i as int));
            assert(es.subrange(0, i + 1).last() == es[i as int]);
            let (k, v) = &value[i];
            if !is_reserved(k) {
                let ghost before = entries_view(extra@);
                extra.push((k.clone(), v.clone()));
                assert(entries_view(extra@) =~= before.push(es[i as int]));
            }
            i = i + 1;
        }
        assert(es.subrange(0, i as int) =~= es);
        options.extra_options = extra;
        proof {
            lemma_extra_entries_wf(es);
        }
        Ok(options)
    }

    /// The string map of the options: the set options, then the extra
    /// ones.
    pub fn to_map(&self) -> (r: Vec<(String, String)>)
        requires
            self@.ttl_fits(),
        ensures
            entries_view(r@) == options_to_map(self@),
            ttl_text_reads_back(self@),
    {
        let mut res: Vec<(String, String)> = Vec::new();
        match self.write_buffer_size {
            Some(size) => {
                res.push((String::from_str(WRITE_BUFFER_SIZE_KEY), format_size(size)));
            },
            None => {},
        }
        let ghost a = entries_view(res@);
        match self.ttl {
            Some(t) => {
                res.push((String::from_str(TTL_KEY), format_ttl(t)));
            },
            None => {},
        }
        let ghost b = entries_view(res@);
        match self.compaction_time_window {
            Some(w) => {
                res.push((String::from_str(COMPACTION_TIME_WINDOW_KEY), format_i64(w)));
            },
            None => {},
        }
        let ghost c = entries_view(res@);
        let ghost ex = entries_view(self.extra_options@);
        let mut i: usize = 0;
        while i < self.extra_options.len()
            invariant
                i <= self.extra_options@.len(),
                ex == entries_view(self.extra_options@),
                entries_view(res@) == c + ex.subrange(0, i as int),
            decreases self.extra_options@.len() - i,
        {
            let (k, v) = &self.extra_options[i];
            let ghost before = entries_view(res@);
            res.push((k.clone(), v.clone()));
            assert(entries_view(res@) =~= before.push(ex[i as int]));
            assert(c + ex.subrange(0, i + 1) =~= (c + ex.subrange(0, i as int)).push(ex[i as int]));
            i = i + 1;
        }
        assert(ex.subrange(0, i as int) =~= ex);
        assert(entries_view(res@) =~= options_to_map(self@));
        res
    }

}

} // verus!
