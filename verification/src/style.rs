//! Pure rendering arithmetic: progress-bar segment scaling, advancement
//! percentages, template geometry, and the decomposition of store paths
//! into display labels.

use vstd::prelude::*;
use vstd::arithmetic::div_mod::{lemma_div_basics, lemma_div_is_ordered, lemma_div_multiples_vanish};
use vstd::arithmetic::mul::lemma_mul_upper_bound;
use vstd::string::StringExecFns;

use crate::strutil::push_char;

verus! {

/// The sum of the segment lengths, capped at the largest representable
/// count.
pub open spec fn spec_bar_total(s: Seq<(char, u64)>) -> int
    decreases s.len(),
{
    if s.len() == 0 {
        0
    } else {
        let rest = spec_bar_total(s.drop_last());
        let sum = rest + s.last().1;
        if sum > u64::MAX {
            u64::MAX as int
        } else {
            sum
        }
    }
}

/// The sum of the segment lengths never exceeds the cap.
pub proof fn lemma_bar_total_bounds(s: Seq<(char, u64)>)
    ensures
        0 <= spec_bar_total(s) <= u64::MAX,
    decreases s.len(),
{
    if s.len() > 0 {
        lemma_bar_total_bounds(s.drop_last());
    }
}

/// A multi-segment progress bar: each segment is a fill character and a
/// count of cells.
#[derive(Debug, PartialEq, Eq)]
pub struct MultiBar(pub Vec<(char, u64)>);

impl MultiBar {
    /// Total length of the bar, saturating at the largest count.
    pub fn length(&self) -> (r: u64)
        ensures
            r == spec_bar_total(self.0@),
    {
        let mut acc: u64 = 0;
        let n = self.0.len();
        proof {
            assert(self.0@.take(0) =~= Seq::<(char, u64)>::empty());
        }
        for i in 0..n
            invariant
                n == self.0@.len(),
                acc == spec_bar_total(self.0@.take(i as int)),
        {
            proof {
                lemma_bar_total_bounds(self.0@.take(i as int));
                assert(self.0@.take(i as int + 1).drop_last() =~= self.0@.take(i as int));
            }
            acc = acc.saturating_add(self.0[i].1);
        }
        proof {
            assert(self.0@.take(n as int) =~= self.0@);
        }
        acc
    }

    /// The bar redrawn to span exactly `size` cells (zero cells when it is
    /// empty), each segment's share rounded so that the shares still sum to
    /// the whole: segment `i` spans from `size * c[i-1] / total` to
    /// `size * c[i] / total`, where `c` is the running total of lengths.
    pub fn scale(&self, size: u64) -> (r: MultiBar)
        ensures
            r.0@.len() == self.0@.len(),
            forall|i: int| 0 <= i < r.0@.len() ==> #[trigger] r.0@[i].0 == self.0@[i].0,
            forall|i: int|
                0 <= i < r.0@.len() ==> #[trigger] r.0@[i].1 == size
                    * spec_bar_total(self.0@.take(i + 1)) / spec_max1(spec_bar_total(self.0@))
                    - size * spec_bar_total(self.0@.take(i)) / spec_max1(
                    spec_bar_total(self.0@),
                ),
            spec_bar_total(r.0@) == if spec_bar_total(self.0@) == 0 {
                0int
            } else {
                size as int
            },
    {
        let total = self.length();
        let length: u64 = if total > 1 {
            total
        } else {
            1
        };
        let mut out: Vec<(char, u64)> = Vec::new();
        let mut prev: u64 = 0;
        let mut curr: u64 = 0;
        let n = self.0.len();
        proof {
            lemma_bar_total_bounds(self.0@);
            lemma_div_basics(length as int);
            assert(self.0@.take(0) =~= Seq::<(char, u64)>::empty());
        }
        for i in 0..n
            invariant
                n == self.0@.len(),
                length == spec_max1(spec_bar_total(self.0@)),
                1 <= length,
                curr == spec_bar_total(self.0@.take(i as int)),
                prev == size as int * curr as int / length as int,
                prev <= size,
                out@.len() == i,
                forall|j: int| 0 <= j < i ==> #[trigger] out@[j].0 == self.0@[j].0,
                forall|j: int|
                    0 <= j < i ==> #[trigger] out@[j].1 == size
                        * spec_bar_total(self.0@.take(j + 1)) / length as int - size
                        * spec_bar_total(self.0@.take(j)) / length as int,
                spec_bar_total(out@) == prev,
        {
            proof {
                lemma_bar_total_bounds(self.0@.take(i as int));
                lemma_bar_total_bounds(self.0@);
                assert(self.0@.take(i as int + 1).drop_last() =~= self.0@.take(i as int));
                lemma_take_total_monotone(self.0@, i as int + 1);
            }
            let (c, seg) = self.0[i];
            let ghost curr_old = curr as int;
            curr = curr.saturating_add(seg);
            proof {
                assert(curr <= length);
                lemma_mul_upper_bound(size as int, u64::MAX as int, curr as int, u64::MAX as int);
                assert(size as int * curr as int <= size as int * length as int)
                    by (nonlinear_arith)
                    requires
                        curr <= length,
                        0 <= size,
                ;
                lemma_div_is_ordered(
                    size as int * curr as int,
                    size as int * length as int,
                    length as int,
                );
                lemma_div_multiples_vanish(size as int, length as int);
                assert(size as int * length as int == length as int * size as int)
                    by (nonlinear_arith);
                assert(size as int * curr_old <= size as int * curr as int)
                    by (nonlinear_arith)
                    requires
                        0 <= curr_old,
                        curr_old <= curr,
                        0 <= size,
                ;
                lemma_div_is_ordered(
                    size as int * curr_old,
                    size as int * curr as int,
                    length as int,
                );
            }
            let q128: u128 = (size as u128) * (curr as u128) / (length as u128);
            proof {
                assert(q128 <= u64::MAX as u128);
            }
            let q: u64 = q128 as u64;
            let cells = q - prev;
            let ghost out_pre = out@;
            out.push((c, cells));
            prev = q;
            proof {
                assert(out@.drop_last() =~= out_pre);
            }
        }
        proof {
            assert(self.0@.take(n as int) =~= self.0@);
            lemma_div_basics(length as int);
            if spec_bar_total(self.0@) != 0 {
                assert(curr == length);
                lemma_div_multiples_vanish(size as int, length as int);
                assert(size as int * length as int == length as int * size as int)
                    by (nonlinear_arith);
            }
        }
        MultiBar(out)
    }

    /// Draws the bar as text, each segment's character repeated for its
    /// count of cells.
    pub fn render(&self) -> (s: String)
        ensures
            s@ == spec_render_bar(self.0@),
    {
        let mut s = String::new();
        let n = self.0.len();
        proof {
            assert(self.0@.take(0) =~= Seq::<(char, u64)>::empty());
        }
        for i in 0..n
            invariant
                n == self.0@.len(),
                s@ == spec_render_bar(self.0@.take(i as int)),
        {
            let (c, seg) = self.0[i];
            let mut k: u64 = 0;
            while k < seg
                invariant
                    k <= seg,
                    s@ == spec_render_bar(self.0@.take(i as int)) + Seq::new(
                        k as nat,
                        |j: int| c,
                    ),
                decreases seg - k,
            {
                push_char(&mut s, c);
                k = k + 1;
                proof {
                    assert(s@ =~= spec_render_bar(self.0@.take(i as int)) + Seq::new(
                        k as nat,
                        |j: int| c,
                    ));
                }
            }
            proof {
                assert(self.0@.take(i as int + 1).drop_last() =~= self.0@.take(i as int));
                assert(s@ =~= spec_render_bar(self.0@.take(i as int + 1)));
            }
        }
        proof {
            assert(self.0@.take(n as int) =~= self.0@);
        }
        s
    }
}

/// The divisor a bar is scaled by: its total, but at least one.
pub open spec fn spec_max1(total: int) -> int {
    if total > 1 {
        total
    } else {
        1
    }
}

/// A segment's prefix total never exceeds the whole bar's total.
proof fn lemma_take_total_monotone(s: Seq<(char, u64)>, i: int)
    requires
        0 <= i <= s.len(),
    ensures
        spec_bar_total(s.take(i)) <= spec_bar_total(s),
    decreases s.len() - i,
{
    if i < s.len() {
        lemma_take_total_monotone(s, i + 1);
        assert(s.take(i + 1).drop_last() =~= s.take(i));
        lemma_bar_total_bounds(s.take(i));
    } else {
        assert(s.take(i) =~= s);
    }
}

/// The text of a bar: each character repeated for its count.
pub open spec fn spec_render_bar(s: Seq<(char, u64)>) -> Seq<char>
    decreases s.len(),
{
    if s.len() == 0 {
        Seq::empty()
    } else {
        spec_render_bar(s.drop_last()) + Seq::new(s.last().1 as nat, |j: int| s.last().0)
    }
}

/// How many of `size` cells a counter has earned: zero while the total is
/// still unknown, else `done/expected` of the bar, rounded to nearest and
/// clamped to the bar.
pub open spec fn spec_advancement(size: int, done: int, expected: int) -> int {
    if expected == 0 {
        0
    } else {
        let q = (size * done + expected / 2) / expected;
        if q > size {
            size
        } else {
            q
        }
    }
}

/// Computes a counter's share of a bar. An unknown total (`expected == 0`)
/// earns an empty bar, never a division by zero.
pub fn advancement(size: u64, done: u64, expected: u64) -> (r: u64)
    ensures
        r == spec_advancement(size as int, done as int, expected as int),
        r <= size,
        expected == 0 ==> r == 0,
{
    if expected == 0 {
        return 0;
    }
    proof {
        lemma_mul_upper_bound(size as int, u64::MAX as int, done as int, u64::MAX as int);
    }
    let q128: u128 = ((size as u128) * (done as u128) + (expected as u128) / 2) / (
    expected as u128);
    if q128 > size as u128 {
        size
    } else {
        proof {
            assert(q128 <= u64::MAX as u128);
        }
        q128 as u64
    }
}

/// More work done never shrinks the advancement: the three segments of a
/// group bar (done, running, pending) therefore have non-negative widths.
pub proof fn lemma_advancement_monotone(size: int, d1: int, d2: int, expected: int)
    requires
        0 <= size,
        0 <= d1 <= d2,
        0 <= expected,
    ensures
        spec_advancement(size, d1, expected) <= spec_advancement(size, d2, expected),
{
    if expected != 0 {
        assert(size * d1 <= size * d2) by (nonlinear_arith)
            requires
                0 <= size,
                d1 <= d2,
        ;
        lemma_div_is_ordered(size * d1 + expected / 2, size * d2 + expected / 2, expected);
    }
}

/// The geometry of one rendered line: how many cells the text part and the
/// bar part get, and whether an elapsed-time column is shown.
#[derive(Clone, Copy, Debug, PartialEq, Eq, Structural)]
pub struct TemplateLayout {
    pub main_size: u16,
    pub bar_size: u16,
    pub elapsed: bool,
}

/// The layout for a terminal width: the bar takes a third; wide terminals
/// also reserve six cells for an elapsed-time column (blank unless asked
/// for).
pub open spec fn spec_template_layout(size: int, show_duration: bool) -> TemplateLayout {
    let bar = size / 3;
    if size > 90 {
        TemplateLayout {
            main_size: (size - bar - 6) as u16,
            bar_size: bar as u16,
            elapsed: show_duration,
        }
    } else {
        TemplateLayout { main_size: (size - bar) as u16, bar_size: bar as u16, elapsed: false }
    }
}

/// Splits a terminal width into text, bar and elapsed-time columns.
pub fn template_layout(size: u16, show_duration: bool) -> (r: TemplateLayout)
    ensures
        r == spec_template_layout(size as int, show_duration),
        r.main_size + r.bar_size <= size,
{
    let bar = size / 3;
    if size > 90 {
        TemplateLayout { main_size: size - bar - 6, bar_size: bar, elapsed: show_duration }
    } else {
        TemplateLayout { main_size: size - bar, bar_size: bar, elapsed: false }
    }
}

/// The decomposition of a store path into its hash prefix, its package
/// name, and an optional version, as the display grammar reads it. Only
/// `match_build_target` gives this name a meaning.
pub uninterp spec fn target_match_of(s: Seq<char>) -> Option<
    (Seq<char>, Seq<char>, Option<Seq<char>>),
>;

/// Relies on the `regex` crate: matching a fixed, valid pattern against a
/// text is a function of the text alone. The pattern splits a store path
/// into `/nix/store/<hash>`, the shortest possible name, an optional
/// trailing version (a date or a dotted number), and an ignored `.drv`.
#[verifier::external_body]
pub fn match_build_target(raw: &str) -> (r: Option<(String, String, Option<String>)>)
    ensures
        match r {
            Some(m) => target_match_of(raw@) == Some(
                (
                    m.0@,
                    m.1@,
                    match m.2 {
                        Some(v) => Some(v@),
                        None => None,
                    },
                ),
            ),
            None => target_match_of(raw@) is None,
        },
{
    let pattern = r"^(?P<prefix>/nix/store/[a-z0-9]+)-(?P<name>.*?)(?:-(?P<version>\d{4}-\d{2}-\d{2}|[ab\d.]+))?(?:\.drv)?$";
    let re = match regex::Regex::new(pattern) {
        Ok(re) => re,
        Err(_) => return None,
    };
    let caps = re.captures(raw)?;
    let prefix = caps.name("prefix")?.as_str().to_owned();
    let name = caps.name("name")?.as_str().to_owned();
    let version = caps.name("version").map(|m| m.as_str().to_owned());
    Some((prefix, name, version))
}

/// The short display label of a matched target: its name, then a dash and
/// the version when there is one.
pub open spec fn spec_short_label(name: Seq<char>, version: Option<Seq<char>>) -> Seq<char> {
    match version {
        Some(v) => name + seq!['-'] + v,
        None => name,
    }
}

/// The full display label of a matched target: the hash prefix, the name
/// and the version, dash-separated.
pub open spec fn spec_full_label(
    prefix: Seq<char>,
    name: Seq<char>,
    version: Option<Seq<char>>,
) -> Seq<char> {
    match version {
        Some(v) => prefix + seq!['-'] + name + seq!['-'] + v,
        None => prefix + seq!['-'] + name,
    }
}

/// Builds the short label from the parts of a matched target.
pub fn format_matched_short(name: String, version: &Option<String>) -> (r: String)
    ensures
        r@ == spec_short_label(
            name@,
            match version {
                Some(v) => Some(v@),
                None => None,
            },
        ),
{
    match version {
        Some(v) => {
            let mut r = name;
            push_char(&mut r, '-');
            r.append(v.as_str());
            proof {
                assert(r@ =~= spec_short_label(name@, Some(v@)));
            }
            r
        },
        None => name,
    }
}

/// Builds the full label from the parts of a matched target.
pub fn format_matched_full(prefix: String, name: &String, version: &Option<String>) -> (r:
    String)
    ensures
        r@ == spec_full_label(
            prefix@,
            name@,
            match version {
                Some(v) => Some(v@),
                None => None,
            },
        ),
{
    let mut r = prefix;
    push_char(&mut r, '-');
    r.append(name.as_str());
    match version {
        Some(v) => {
            push_char(&mut r, '-');
            r.append(v.as_str());
            proof {
                assert(r@ =~= spec_full_label(prefix@, name@, Some(v@)));
            }
            r
        },
        None => {
            proof {
                assert(r@ =~= spec_full_label(prefix@, name@, None));
            }
            r
        },
    }
}

/// What the short label of a raw target text is: the name-and-version
/// label when the store-path grammar matches, the text itself otherwise.
pub open spec fn spec_format_short(s: Seq<char>) -> Seq<char> {
    match target_match_of(s) {
        Some((prefix, name, version)) => spec_short_label(name, version),
        None => s,
    }
}

/// What the full label of a raw target text is.
pub open spec fn spec_format_full(s: Seq<char>) -> Seq<char> {
    match target_match_of(s) {
        Some((prefix, name, version)) => spec_full_label(prefix, name, version),
        None => s,
    }
}

/// The short display label of a target: the package name and version when
/// the store-path grammar matches, the raw text otherwise.
pub fn format_short_build_target(raw_str: &str) -> (r: String)
    ensures
        r@ == spec_format_short(raw_str@),
{
    match match_build_target(raw_str) {
        Some((prefix, name, version)) => format_matched_short(name, &version),
        None => String::from_str(raw_str),
    }
}

/// The full display label of a target: hash prefix, name and version when
/// the store-path grammar matches, the raw text otherwise.
pub fn format_build_target(raw_str: &str) -> (r: String)
    ensures
        r@ == spec_format_full(raw_str@),
{
    match match_build_target(raw_str) {
        Some((prefix, name, version)) => format_matched_full(prefix, &name, &version),
        None => String::from_str(raw_str),
    }
}

/// The segments of a bar after scaling to `size` cells: same fill
/// characters, each count replaced by its rounded share.
pub open spec fn spec_scaled(s: Seq<(char, u64)>, size: u64) -> Seq<(char, u64)> {
    Seq::new(
        s.len(),
        |i: int|
            (
                s[i].0,
                (size * spec_bar_total(s.take(i + 1)) / spec_max1(spec_bar_total(s)) - size
                    * spec_bar_total(s.take(i)) / spec_max1(spec_bar_total(s))) as u64,
            ),
    )
}

/// Draws a build group's three-segment bar (done, running, pending),
/// scaled to `size` cells.
pub fn group_bar_text(size: u64, done: u64, running: u64, pending: u64) -> (s: String)
    ensures
        s@ == spec_render_bar(
            spec_scaled(seq![('#', done), ('-', running), (' ', pending)], size),
        ),
{
    let segs = vec![('#', done), ('-', running), (' ', pending)];
    let bar = MultiBar(segs);
    proof {
        assert(bar.0@ =~= seq![('#', done), ('-', running), (' ', pending)]);
    }
    let scaled = bar.scale(size);
    proof {
        assert forall|i: int| 0 <= i < scaled.0@.len() implies scaled.0@[i] == spec_scaled(
            bar.0@,
            size,
        )[i] by {
            assert(scaled.0@[i].0 == bar.0@[i].0);
            assert(scaled.0@[i].1 == size * spec_bar_total(bar.0@.take(i + 1)) / spec_max1(
                spec_bar_total(bar.0@),
            ) - size * spec_bar_total(bar.0@.take(i)) / spec_max1(spec_bar_total(bar.0@)));
        }
        assert(scaled.0@ =~= spec_scaled(bar.0@, size));
    }
    scaled.render()
}

/// Draws a transfer's two-segment bar (received, remaining), scaled to
/// `size` cells.
pub fn transfer_bar_text(size: u64, pos: u64, expected: u64) -> (s: String)
    ensures
        s@ == spec_render_bar(
            spec_scaled(seq![('#', pos), ('-', expected.saturating_sub(pos) as u64)], size),
        ),
{
    let rest = expected.saturating_sub(pos);
    let segs = vec![('#', pos), ('-', rest)];
    let bar = MultiBar(segs);
    proof {
        assert(bar.0@ =~= seq![('#', pos), ('-', rest)]);
    }
    let scaled = bar.scale(size);
    proof {
        assert forall|i: int| 0 <= i < scaled.0@.len() implies scaled.0@[i] == spec_scaled(
            bar.0@,
            size,
        )[i] by {
            assert(scaled.0@[i].0 == bar.0@[i].0);
            assert(scaled.0@[i].1 == size * spec_bar_total(bar.0@.take(i + 1)) / spec_max1(
                spec_bar_total(bar.0@),
            ) - size * spec_bar_total(bar.0@.take(i)) / spec_max1(spec_bar_total(bar.0@)));
        }
        assert(scaled.0@ =~= spec_scaled(bar.0@, size));
    }
    scaled.render()
}

/// The segments of a download group's bar: the done and running shares of
/// `size` cells (running clamped up to the done share), the rest blank.
pub open spec fn spec_group_advancement_segments(
    size: u64,
    done: u64,
    running: u64,
    expected: u64,
) -> Seq<(char, u64)> {
    let a1 = spec_advancement(size as int, done as int, expected as int);
    let a2 = spec_advancement(size as int, running as int, expected as int);
    let hi = if a2 > a1 {
        a2
    } else {
        a1
    };
    let run = (hi - a1) as u64;
    let blank = (size - hi) as u64;
    seq![('#', a1 as u64), ('-', run), (' ', blank)]
}

/// Draws a download group's aggregate bar from its byte counters.
pub fn group_advancement_bar_text(size: u64, done: u64, running: u64, expected: u64) -> (s:
    String)
    ensures
        s@ == spec_render_bar(spec_group_advancement_segments(size, done, running, expected)),
{
    let a1 = advancement(size, done, expected);
    let a2 = advancement(size, running, expected);
    let hi = if a2 > a1 {
        a2
    } else {
        a1
    };
    let run = hi - a1;
    let blank = size - hi;
    let segs = vec![('#', a1), ('-', run), (' ', blank)];
    let bar = MultiBar(segs);
    proof {
        assert(bar.0@ =~= spec_group_advancement_segments(size, done, running, expected));
    }
    bar.render()
}

} // verus!
