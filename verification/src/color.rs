//! Colors of the spectrum bars: the color type, its text form, and the
//! gradient that spreads a few colors over any number of bars.
use vstd::prelude::*;
use crate::text::{
    all_white, chars_of, comma_count, comma_ranges, decimal_text, is_white_space,
    lemma_decimal_text, lemma_split_comma, lemma_split_count, lemma_split_extend,
    lemma_strip_keeps_commas, lemma_trim_padding, parse_unsigned, parse_unsigned_range, spans_hold,
    split_commas, strip_close_parens, strip_close_parens_len, trim, trim_range,
};

verus! {

/// An RGBA color, one byte per channel.
#[derive(Debug, Clone, Copy, PartialEq, Eq, Structural)]
pub struct MyColor {
    pub r: u8,
    pub g: u8,
    pub b: u8,
    pub a: u8,
}

/// Why a color text was refused.
#[derive(Debug, Clone, Copy, PartialEq, Eq, Structural)]
pub enum ColorError {
    /// A channel is not a whole number from 0 to 255.
    InvalidChannel,
    /// There are neither three nor four channels.
    WrongChannelCount,
}

impl MyColor {
    /// The color with each of red, green and blue replaced by its complement;
    /// alpha stays.
    pub open spec fn inverted(self) -> MyColor {
        MyColor {
            r: (255 - self.r) as u8,
            g: (255 - self.g) as u8,
            b: (255 - self.b) as u8,
            a: self.a,
        }
    }

    pub fn new(r: u8, g: u8, b: u8, a: u8) -> (c: Self)
        ensures
            c == (MyColor { r, g, b, a }),
    {
        Self { r, g, b, a }
    }

    pub fn invert(&mut self)
        ensures
            *final(self) == old(self).inverted(),
    {
        self.r = u8::MAX - self.r;
        self.g = u8::MAX - self.g;
        self.b = u8::MAX - self.b;
    }

    /// The color a color text stands for; only a text that `parse` accepts
    /// may be given.
    pub fn from(value: &str) -> (c: MyColor)
        requires
            color_from_text(value@) is Ok,
        ensures
            color_from_text(value@) == Ok::<MyColor, ColorError>(c),
    {
        match Self::parse(value) {
            Ok(c) => c,
            Err(_) => {
                proof {
                    assert(false);
                }
                MyColor { r: 0, g: 0, b: 0, a: 0 }
            },
        }
    }

    /// Reads a color written as `R,G,B` or `R,G,B,A`, each channel a decimal
    /// number from 0 to 255; white space around a channel and closing
    /// parentheses at the end are ignored, and alpha defaults to 255. A text
    /// that is not a color gives the error that says why.
    pub fn parse(value: &str) -> (res: Result<MyColor, ColorError>)
        ensures
            res == color_from_text(value@),
    {
        let v = chars_of(value);
        let end = strip_close_parens_len(&v);
        let spans = comma_ranges(&v, end);
        let ghost fields = color_fields(value@);
        let mut channels: Vec<u8> = Vec::new();
        for k in 0..spans.len()
            invariant
                v@ == value@,
                v@.take(end as int) == strip_close_parens(value@),
                end <= v.len(),
                spans.len() == fields.len(),
                fields == color_fields(value@),
                spans_hold(v@, spans@, split_commas(v@.take(end as int)), end as int),
                channels.len() == k,
                forall|j: int| 0 <= j < k ==> channel(#[trigger] fields[j]) == Some(channels@[j] as int),
        {
            let (a, b) = spans[k];
            let (ta, tb) = trim_range(&v, a, b);
            match parse_unsigned_range(&v, ta, tb, 255) {
                Some(n) => {
                    channels.push(n as u8);
                },
                None => {
                    assert(channel(fields[k as int]) is None);
                    return Err(ColorError::InvalidChannel);
                },
            }
        }
        if channels.len() == 3 {
            Ok(MyColor { r: channels[0], g: channels[1], b: channels[2], a: 255 })
        } else if channels.len() == 4 {
            Ok(MyColor { r: channels[0], g: channels[1], b: channels[2], a: channels[3] })
        } else {
            Err(ColorError::WrongChannelCount)
        }
    }
}

impl Default for MyColor {
    fn default() -> (c: Self)
        ensures
            c == (MyColor { r: 255, g: 255, b: 255, a: 230 }),
    {
        Self { r: 255, g: 255, b: 255, a: 230 }
    }
}

/// The channel texts of a color text: the text without closing parentheses
/// at its end, split at every comma, each piece trimmed.
pub open spec fn color_fields(s: Seq<char>) -> Seq<Seq<char>> {
    split_commas(strip_close_parens(s)).map_values(|p: Seq<char>| trim(p))
}

/// The value of one channel text.
pub open spec fn channel(p: Seq<char>) -> Option<int> {
    parse_unsigned(p, 255)
}

/// The color a text stands for: every channel must be a number from 0 to
/// 255, and there must be three of them (alpha is then 255) or four.
pub open spec fn color_from_text(s: Seq<char>) -> Result<MyColor, ColorError> {
    let f = color_fields(s);
    if exists|i: int| 0 <= i < f.len() && channel(#[trigger] f[i]) is None {
        Err(ColorError::InvalidChannel)
    } else if f.len() == 3 {
        Ok(
            MyColor {
                r: channel(f[0])->0 as u8,
                g: channel(f[1])->0 as u8,
                b: channel(f[2])->0 as u8,
                a: 255,
            },
        )
    } else if f.len() == 4 {
        Ok(
            MyColor {
                r: channel(f[0])->0 as u8,
                g: channel(f[1])->0 as u8,
                b: channel(f[2])->0 as u8,
                a: channel(f[3])->0 as u8,
            },
        )
    } else {
        Err(ColorError::WrongChannelCount)
    }
}

/// The text `R,G,B` of three channels in shortest decimal form.
pub open spec fn rgb_text(r: u8, g: u8, b: u8) -> Seq<char> {
    decimal_text(r as nat) + seq![','] + decimal_text(g as nat) + seq![','] + decimal_text(
        b as nat,
    )
}

/// The text `R,G,B,A` of four channels in shortest decimal form.
pub open spec fn rgba_text(r: u8, g: u8, b: u8, a: u8) -> Seq<char> {
    rgb_text(r, g, b) + seq![','] + decimal_text(a as nat)
}

/// The color halfway between two colors, each channel rounded down.
pub open spec fn blend(c1: MyColor, c2: MyColor) -> MyColor {
    MyColor {
        r: ((c1.r + c2.r) / 2) as u8,
        g: ((c1.g + c2.g) / 2) as u8,
        b: ((c1.b + c2.b) / 2) as u8,
        a: ((c1.a + c2.a) / 2) as u8,
    }
}

/// The color halfway between `c1` and `c2`.
pub fn midpoint(c1: MyColor, c2: MyColor) -> (m: MyColor)
    ensures
        m == blend(c1, c2),
{
    MyColor {
        r: ((c1.r as u16 + c2.r as u16) / 2) as u8,
        g: ((c1.g as u16 + c2.g as u16) / 2) as u8,
        b: ((c1.b as u16 + c2.b as u16) / 2) as u8,
        a: ((c1.a as u16 + c2.a as u16) / 2) as u8,
    }
}

/// A partial refinement of a gradient: between each of the first `k` pairs
/// of neighbouring colors the color halfway between them is put in.
pub open spec fn refine_first(s: Seq<MyColor>, k: nat) -> Seq<MyColor> {
    Seq::new(
        s.len() + k,
        |j: int|
            if j < 2 * k {
                if j % 2 == 0 {
                    s[j / 2]
                } else {
                    blend(s[j / 2], s[j / 2 + 1])
                }
            } else {
                s[j - k]
            },
    )
}

/// How many halfway colors the next refinement puts in when a gradient of
/// `len` colors must reach `n`: one between every pair of neighbours, but no
/// more than the gradient lacks.
pub open spec fn gaps_to_fill(len: nat, n: nat) -> nat {
    if n - len < len - 1 {
        (n - len) as nat
    } else {
        (len - 1) as nat
    }
}

/// How many colors a gradient lacks to reach `n`.
pub open spec fn shortfall(len: nat, n: nat) -> nat {
    if len >= n {
        0
    } else {
        (n - len) as nat
    }
}

/// The gradient of `n` colors made from `s`. With fewer than `n` colors, the
/// halfway color is put in between neighbours, round after round; the last
/// round fills only as many gaps, from the front, as are still missing, so
/// every given color stays and the gradient ends on the last one. With `n`
/// colors or more, the first `n` are kept.
pub open spec fn stretched(s: Seq<MyColor>, n: nat) -> Seq<MyColor>
    decreases shortfall(s.len(), n),
{
    if s.len() >= n {
        s.take(n as int)
    } else if s.len() < 2 {
        s
    } else {
        stretched(refine_first(s, gaps_to_fill(s.len(), n)), n)
    }
}

/// Whether `s` can be stretched to `n` colors: it has enough already, or at
/// least two to put colors between.
pub open spec fn can_stretch(s: Seq<MyColor>, n: nat) -> bool {
    s.len() >= n || s.len() >= 2
}

/// The gradient of `target_len` colors made from `colors`.
pub fn expand_to_len(colors: Vec<MyColor>, target_len: usize) -> (res: Vec<MyColor>)
    requires
        can_stretch(colors@, target_len as nat),
    ensures
        res@ == stretched(colors@, target_len as nat),
        res.len() == target_len,
{
    let ghost n = target_len as nat;
    proof {
        lemma_stretched_len(colors@, n);
    }
    let mut colors = colors;
    if colors.len() >= target_len {
        colors.truncate(target_len);
        return colors;
    }
    let ghost goal = stretched(colors@, n);
    while colors.len() < target_len
        invariant
            colors.len() >= 2,
            n == target_len as nat,
            stretched(colors@, n) == goal,
        decreases shortfall(colors.len() as nat, target_len as nat),
    {
        let old_len = colors.len();
        let k = if target_len - old_len < old_len - 1 {
            target_len - old_len
        } else {
            old_len - 1
        };
        let ghost next = refine_first(colors@, k as nat);
        let mut result: Vec<MyColor> = Vec::new();
        for i in 0..k
            invariant
                old_len == colors.len(),
                k < old_len,
                next == refine_first(colors@, k as nat),
                result.len() == 2 * i,
                forall|j: int| 0 <= j < 2 * i ==> #[trigger] result@[j] == next[j],
        {
            result.push(colors[i]);
            result.push(midpoint(colors[i], colors[i + 1]));
        }
        for i in k..old_len
            invariant
                old_len == colors.len(),
                k < old_len,
                next == refine_first(colors@, k as nat),
                result.len() == k + i,
                forall|j: int| 0 <= j < k + i ==> #[trigger] result@[j] == next[j],
        {
            result.push(colors[i]);
        }
        assert(result@ =~= next);
        colors = result;
    }
    colors.truncate(target_len);
    colors
}

/// The colors the gradient starts from: two colors (red, then blue) when
/// none are given, and a transparent color after a single given one.
pub open spec fn with_default_colors(s: Seq<MyColor>) -> Seq<MyColor> {
    if s.len() == 0 {
        seq![MyColor { r: 255, g: 0, b: 0, a: 255 }, MyColor { r: 0, g: 0, b: 255, a: 255 }]
    } else if s.len() == 1 {
        s.push(MyColor { r: 255, g: 0, b: 0, a: 0 })
    } else {
        s
    }
}

/// The colors of `bars` bars made from the colors the user gave.
pub fn fill_gradient(colors: Vec<MyColor>, bars: usize) -> (res: Vec<MyColor>)
    ensures
        res@ == stretched(with_default_colors(colors@), bars as nat),
        res.len() == bars,
        colors@.len() == 0 && bars >= 2 ==> res@[0] == (MyColor { r: 255, g: 0, b: 0, a: 255 })
            && res@[bars - 1] == (MyColor { r: 0, g: 0, b: 255, a: 255 }),
        colors@.len() == 1 && bars >= 2 ==> res@[0] == colors@[0] && res@[bars - 1] == (MyColor {
            r: 255,
            g: 0,
            b: 0,
            a: 0,
        }),
        colors@.len() >= 2 && bars >= colors@.len() ==> res@[0] == colors@[0] && res@[bars - 1]
            == colors@.last() && keeps_in_order(colors@, res@),
{
    let ghost given = colors@;
    let mut colors = colors;
    if colors.len() == 0 {
        colors.push(MyColor::new(255, 0, 0, 255));
        colors.push(MyColor::new(0, 0, 255, 255));
    } else if colors.len() == 1 {
        colors.push(MyColor::new(255, 0, 0, 0));
    }
    assert(colors@ =~= with_default_colors(given));
    proof {
        if colors@.len() <= bars {
            lemma_stretched_first(colors@, bars as nat);
            lemma_stretched_last(colors@, bars as nat);
            lemma_stretched_keeps_colors(colors@, bars as nat);
        }
    }
    expand_to_len(colors, bars)
}

/// Every channel of `c` lies between the same channel of `lo` and of `hi`.
pub open spec fn within(c: MyColor, lo: MyColor, hi: MyColor) -> bool {
    &&& lo.r <= c.r <= hi.r
    &&& lo.g <= c.g <= hi.g
    &&& lo.b <= c.b <= hi.b
    &&& lo.a <= c.a <= hi.a
}

/// A stretched gradient has exactly the number of colors asked for.
pub proof fn lemma_stretched_len(s: Seq<MyColor>, n: nat)
    requires
        can_stretch(s, n),
    ensures
        stretched(s, n).len() == n,
    decreases shortfall(s.len(), n),
{
    if s.len() < n {
        lemma_stretched_len(refine_first(s, gaps_to_fill(s.len(), n)), n);
    }
}

/// A stretched gradient begins with the first color it was made from.
pub proof fn lemma_stretched_first(s: Seq<MyColor>, n: nat)
    requires
        can_stretch(s, n),
        n > 0,
        s.len() > 0,
    ensures
        stretched(s, n)[0] == s[0],
    decreases shortfall(s.len(), n),
{
    if s.len() < n {
        lemma_stretched_first(refine_first(s, gaps_to_fill(s.len(), n)), n);
    }
}

/// While a gradient of `L` colors lacks at least `L - 1` colors, the next
/// round puts the halfway color into every gap: stretching `s` gives the
/// same gradient as stretching `t`, the colors of `s` with the halfway color
/// between each two neighbours.
pub proof fn lemma_full_round(s: Seq<MyColor>, t: Seq<MyColor>, n: nat)
    requires
        s.len() >= 2,
        n >= 2 * s.len() - 1,
        t.len() == 2 * s.len() - 1,
        forall|i: int| 0 <= i < s.len() ==> #[trigger] t[2 * i] == s[i],
        forall|i: int| 0 <= i < s.len() - 1 ==> #[trigger] t[2 * i + 1] == blend(s[i], s[i + 1]),
    ensures
        stretched(s, n) == stretched(t, n),
{
    let k = gaps_to_fill(s.len(), n);
    assert(k == s.len() - 1);
    let u = refine_first(s, k);
    assert forall|j: int| 0 <= j < u.len() implies #[trigger] u[j] == t[j] by {
        if j < 2 * k {
            if j % 2 == 0 {
                assert(t[2 * (j / 2)] == s[j / 2]);
            } else {
                assert(t[2 * (j / 2) + 1] == blend(s[j / 2], s[j / 2 + 1]));
            }
        } else {
            assert(j == 2 * (s.len() - 1));
            assert(t[2 * (s.len() - 1)] == s[s.len() - 1]);
        }
    }
    assert(u =~= t);
}

/// When a gradient of `L` colors lacks fewer than `L - 1` colors, the last
/// round puts the halfway color into the first gaps only, as many as are
/// missing, and every given color stays.
pub proof fn lemma_last_round(s: Seq<MyColor>, n: nat)
    requires
        s.len() >= 2,
        s.len() < n < 2 * s.len() - 1,
    ensures
        stretched(s, n).len() == n,
        forall|j: int|
            0 <= j < 2 * (n - s.len()) && j % 2 == 0 ==> #[trigger] stretched(s, n)[j] == s[j / 2],
        forall|j: int|
            0 <= j < 2 * (n - s.len()) && j % 2 == 1 ==> #[trigger] stretched(s, n)[j] == blend(
                s[j / 2],
                s[j / 2 + 1],
            ),
        forall|j: int|
            2 * (n - s.len()) <= j < n ==> #[trigger] stretched(s, n)[j] == s[j - (n - s.len())],
{
    let u = refine_first(s, gaps_to_fill(s.len(), n));
    assert(u.take(n as int) =~= u);
    assert(stretched(s, n) == stretched(u, n));
}

/// With at least as many colors as asked for, the first `n` are kept.
pub proof fn lemma_stretched_cuts(s: Seq<MyColor>, n: nat)
    requires
        s.len() >= n,
    ensures
        stretched(s, n) == s.take(n as int),
{
}

/// Each channel of the halfway color is the mean of the two channels,
/// rounded down.
pub proof fn lemma_blend_halfway(c1: MyColor, c2: MyColor)
    ensures
        2 * blend(c1, c2).r <= c1.r + c2.r <= 2 * blend(c1, c2).r + 1,
        2 * blend(c1, c2).g <= c1.g + c2.g <= 2 * blend(c1, c2).g + 1,
        2 * blend(c1, c2).b <= c1.b + c2.b <= 2 * blend(c1, c2).b + 1,
        2 * blend(c1, c2).a <= c1.a + c2.a <= 2 * blend(c1, c2).a + 1,
{
}

/// `pos` places each color of `s` in `r`, keeping their order.
pub open spec fn places_in_order(s: Seq<MyColor>, r: Seq<MyColor>, pos: Seq<int>) -> bool {
    &&& pos.len() == s.len()
    &&& forall|i: int|
        #![trigger pos[i]]
        0 <= i < s.len() ==> 0 <= pos[i] < r.len() && r[pos[i]] == s[i]
    &&& forall|i: int, j: int| #![trigger pos[i], pos[j]] 0 <= i < j < s.len() ==> pos[i] < pos[j]
}

/// Every color of `s` appears in `r`, in the same order.
pub open spec fn keeps_in_order(s: Seq<MyColor>, r: Seq<MyColor>) -> bool {
    exists|pos: Seq<int>| places_in_order(s, r, pos)
}

/// Where the colors of `s` stand in the gradient stretched from it.
proof fn stretched_positions(s: Seq<MyColor>, n: nat) -> (pos: Seq<int>)
    requires
        s.len() >= 2,
        n >= s.len(),
    ensures
        places_in_order(s, stretched(s, n), pos),
    decreases shortfall(s.len(), n),
{
    if s.len() >= n {
        assert(s.take(n as int) =~= s);
        Seq::new(s.len(), |i: int| i)
    } else {
        let k = gaps_to_fill(s.len(), n);
        let u = refine_first(s, k);
        let pu = stretched_positions(u, n);
        let f = |i: int|
            if i < k {
                2 * i
            } else {
                i + k
            };
        let pos = Seq::new(s.len(), |i: int| pu[f(i)]);
        assert forall|i: int| 0 <= i < s.len() implies 0 <= #[trigger] pos[i] < stretched(s, n).len()
            && stretched(s, n)[pos[i]] == s[i] by {
            assert(u[f(i)] == s[i]);
            assert(pu[f(i)] == pos[i]);
        }
        assert forall|i: int, j: int| 0 <= i < j < s.len() implies #[trigger] pos[i]
            < #[trigger] pos[j] by {
            assert(f(i) < f(j));
            assert(pu[f(i)] == pos[i]);
            assert(pu[f(j)] == pos[j]);
        }
        pos
    }
}

/// Stretched to at least as many colors as it has, a gradient keeps every
/// color it was made from, in order.
pub proof fn lemma_stretched_keeps_colors(s: Seq<MyColor>, n: nat)
    requires
        s.len() >= 2,
        n >= s.len(),
    ensures
        keeps_in_order(s, stretched(s, n)),
{
    let pos = stretched_positions(s, n);
}

/// Stretched to at least as many colors as it has, a gradient ends with the
/// last color it was made from.
pub proof fn lemma_stretched_last(s: Seq<MyColor>, n: nat)
    requires
        s.len() >= 2,
        n >= s.len(),
    ensures
        stretched(s, n).len() == n,
        stretched(s, n)[n - 1] == s.last(),
    decreases shortfall(s.len(), n),
{
    lemma_stretched_len(s, n);
    if s.len() < n {
        let u = refine_first(s, gaps_to_fill(s.len(), n));
        assert(u.last() == s.last());
        lemma_stretched_last(u, n);
    }
}

/// With at least as many bars as colors, the bars' gradient runs from the
/// first color to the last one (transparent, after a single given color)
/// and keeps every given color in order between them.
pub proof fn lemma_gradient_spans_all_colors(s: Seq<MyColor>, bars: nat)
    requires
        s.len() > 0,
        bars >= with_default_colors(s).len(),
    ensures
        stretched(with_default_colors(s), bars).len() == bars,
        stretched(with_default_colors(s), bars)[0] == s[0],
        stretched(with_default_colors(s), bars)[bars - 1] == with_default_colors(s).last(),
        keeps_in_order(with_default_colors(s), stretched(with_default_colors(s), bars)),
        s.len() >= 2 ==> keeps_in_order(s, stretched(with_default_colors(s), bars)),
        s.len() == 1 ==> stretched(with_default_colors(s), bars)[bars - 1] == (MyColor {
            r: 255,
            g: 0,
            b: 0,
            a: 0,
        }),
{
    let t = with_default_colors(s);
    lemma_stretched_first(t, bars);
    lemma_stretched_last(t, bars);
    lemma_stretched_keeps_colors(t, bars);
}

/// The bars' gradient begins with the first color the user gave, and holds
/// exactly one color per bar.
pub proof fn lemma_gradient_begins_with_first_color(s: Seq<MyColor>, bars: nat)
    requires
        s.len() > 0,
        bars > 0,
    ensures
        stretched(with_default_colors(s), bars).len() == bars,
        stretched(with_default_colors(s), bars)[0] == s[0],
{
    let t = with_default_colors(s);
    lemma_stretched_len(t, bars);
    lemma_stretched_first(t, bars);
}

/// A gradient that already has `n` colors is left as it is.
pub proof fn lemma_stretched_exact(s: Seq<MyColor>)
    ensures
        stretched(s, s.len()) == s,
{
}

/// Stretching a gradient a second time to the same length changes nothing.
pub proof fn lemma_stretched_stable(s: Seq<MyColor>, n: nat)
    requires
        can_stretch(s, n),
    ensures
        stretched(stretched(s, n), n) == stretched(s, n),
{
    lemma_stretched_len(s, n);
    lemma_stretched_exact(stretched(s, n));
}

/// The color halfway between two colors lies within any bounds both lie in.
pub proof fn lemma_blend_within(c1: MyColor, c2: MyColor, lo: MyColor, hi: MyColor)
    requires
        within(c1, lo, hi),
        within(c2, lo, hi),
    ensures
        within(blend(c1, c2), lo, hi),
{
}

/// A stretched gradient adds no color outside the bounds that hold every
/// color it was made from.
pub proof fn lemma_stretched_within(s: Seq<MyColor>, n: nat, lo: MyColor, hi: MyColor)
    requires
        can_stretch(s, n),
        forall|i: int| 0 <= i < s.len() ==> within(#[trigger] s[i], lo, hi),
    ensures
        forall|j: int| 0 <= j < stretched(s, n).len() ==> within(#[trigger] stretched(s, n)[j], lo, hi),
    decreases shortfall(s.len(), n),
{
    if s.len() < n {
        let t = refine_first(s, gaps_to_fill(s.len(), n));
        assert forall|k: int| 0 <= k < t.len() implies within(#[trigger] t[k], lo, hi) by {
            if k < 2 * gaps_to_fill(s.len(), n) && k % 2 != 0 {
                lemma_blend_within(s[k / 2], s[k / 2 + 1], lo, hi);
            } else {
            }
        }
        lemma_stretched_within(t, n, lo, hi);
        assert(stretched(s, n) == stretched(t, n));
    } else {
        assert forall|j: int| 0 <= j < stretched(s, n).len() implies within(
            #[trigger] stretched(s, n)[j],
            lo,
            hi,
        ) by {
        }
    }
}

/// The halfway color of a color and itself is that color.
pub proof fn lemma_blend_same(c: MyColor)
    ensures
        blend(c, c) == c,
{
}

/// The halfway color does not depend on the order of the two colors.
pub proof fn lemma_blend_symmetric(c1: MyColor, c2: MyColor)
    ensures
        blend(c1, c2) == blend(c2, c1),
{
}

/// Inverting a color turns each of red, green and blue into its complement
/// to 255 and leaves alpha alone.
pub proof fn lemma_invert_complements(c: MyColor)
    ensures
        c.inverted().r + c.r == 255,
        c.inverted().g + c.g == 255,
        c.inverted().b + c.b == 255,
        c.inverted().a == c.a,
{
}

/// Inverting a color twice gives it back.
pub proof fn lemma_invert_twice(c: MyColor)
    ensures
        c.inverted().inverted() == c,
{
}

/// The decimal text of a channel value is a channel text that reads back as
/// that value.
proof fn lemma_channel_text(n: nat)
    ensures
        decimal_text(n).len() > 0,
        forall|i: int| 0 <= i < decimal_text(n).len() ==> #[trigger] decimal_text(n)[i] != ',',
        decimal_text(n).last() != ')',
        trim(decimal_text(n)) == decimal_text(n),
        channel(decimal_text(n)) == (if n <= 255 {
            Some(n as int)
        } else {
            None
        }),
{
    lemma_decimal_text(n);
}

/// Splitting `p,q` where `q` holds no comma.
proof fn lemma_split_then(p: Seq<char>, q: Seq<char>)
    requires
        forall|i: int| 0 <= i < q.len() ==> q[i] != ',',
    ensures
        split_commas(p + seq![','] + q) == split_commas(p).push(q),
{
    lemma_split_comma(p);
    lemma_split_extend(p + seq![','], q);
}

/// The text of three channel values reads back as the opaque color of them.
pub proof fn lemma_rgb_text_parses(r: u8, g: u8, b: u8)
    ensures
        color_from_text(rgb_text(r, g, b)) == Ok::<MyColor, ColorError>(MyColor { r, g, b, a: 255 }),
{
    let (tr, tg, tb) = (decimal_text(r as nat), decimal_text(g as nat), decimal_text(b as nat));
    lemma_channel_text(r as nat);
    lemma_channel_text(g as nat);
    lemma_channel_text(b as nat);
    lemma_split_extend(Seq::<char>::empty(), tr);
    lemma_split_then(tr, tg);
    lemma_split_then(tr + seq![','] + tg, tb);
}

/// The text of a channel value with white space around it.
pub open spec fn padded_channel(w1: Seq<char>, v: u8, w2: Seq<char>) -> Seq<char> {
    w1 + decimal_text(v as nat) + w2
}

/// A padded channel text holds no comma, does not end in `)`, and trims to
/// the decimal text of its value.
proof fn lemma_padded_channel(w1: Seq<char>, v: u8, w2: Seq<char>)
    requires
        all_white(w1),
        all_white(w2),
    ensures
        forall|i: int| 0 <= i < padded_channel(w1, v, w2).len() ==> #[trigger] padded_channel(w1, v, w2)[i] != ',',
        padded_channel(w1, v, w2).len() > 0,
        padded_channel(w1, v, w2).last() != ')',
        trim(padded_channel(w1, v, w2)) == decimal_text(v as nat),
{
    let d = decimal_text(v as nat);
    let p = padded_channel(w1, v, w2);
    lemma_channel_text(v as nat);
    assert(!is_white_space(d[0])) by {
        assert(d[0] != ',');
        crate::text::lemma_decimal_text(v as nat);
        assert(crate::text::is_digit(d[0]));
    }
    assert(!is_white_space(d.last())) by {
        crate::text::lemma_decimal_text(v as nat);
        assert(crate::text::is_digit(d[d.len() - 1]));
    }
    lemma_trim_padding(w1, d, w2);
    assert forall|i: int| 0 <= i < p.len() implies #[trigger] p[i] != ',' by {
        if i < w1.len() {
            assert(is_white_space(w1[i]));
        } else if i < w1.len() + d.len() {
            assert(p[i] == d[i - w1.len()]);
        } else {
            assert(is_white_space(w2[i - w1.len() - d.len()]));
        }
    }
    if w2.len() > 0 {
        assert(is_white_space(w2[w2.len() - 1]));
    }
}

/// White space around the channels does not change the color a text reads
/// as.
pub proof fn lemma_padded_rgb_text_parses(
    r: u8,
    g: u8,
    b: u8,
    w1: Seq<char>,
    w2: Seq<char>,
    w3: Seq<char>,
    w4: Seq<char>,
    w5: Seq<char>,
    w6: Seq<char>,
)
    requires
        all_white(w1),
        all_white(w2),
        all_white(w3),
        all_white(w4),
        all_white(w5),
        all_white(w6),
    ensures
        color_from_text(
            padded_channel(w1, r, w2) + seq![','] + padded_channel(w3, g, w4) + seq![',']
                + padded_channel(w5, b, w6),
        ) == Ok::<MyColor, ColorError>(MyColor { r, g, b, a: 255 }),
{
    let (pr, pg, pb) = (padded_channel(w1, r, w2), padded_channel(w3, g, w4), padded_channel(w5, b, w6));
    lemma_padded_channel(w1, r, w2);
    lemma_padded_channel(w3, g, w4);
    lemma_padded_channel(w5, b, w6);
    lemma_channel_text(r as nat);
    lemma_channel_text(g as nat);
    lemma_channel_text(b as nat);
    let t = pr + seq![','] + pg + seq![','] + pb;
    assert(t.last() == pb.last());
    lemma_split_extend(Seq::<char>::empty(), pr);
    assert(split_commas(Seq::<char>::empty()) == seq![Seq::<char>::empty()]);
    assert(Seq::<char>::empty() + pr =~= pr);
    lemma_split_then(pr, pg);
    lemma_split_then(pr + seq![','] + pg, pb);
    assert(split_commas(t) =~= seq![pr, pg, pb]);
    assert(color_fields(t) =~= seq![decimal_text(r as nat), decimal_text(g as nat), decimal_text(b as nat)]);
}

/// Closing parentheses at the end of a color text are ignored.
pub proof fn lemma_closing_paren_ignored(s: Seq<char>)
    ensures
        color_from_text(s + seq![')']) == color_from_text(s),
{
    assert((s + seq![')']).drop_last() =~= s);
}

/// The decimal text of three whole numbers, comma-separated.
pub open spec fn numbers_text(r: nat, g: nat, b: nat) -> Seq<char> {
    decimal_text(r) + seq![','] + decimal_text(g) + seq![','] + decimal_text(b)
}

/// Three numbers read as an opaque color exactly when each is at most 255;
/// a larger one is refused as an invalid channel.
pub proof fn lemma_numbers_text_parses(r: nat, g: nat, b: nat)
    ensures
        color_from_text(numbers_text(r, g, b)) == (if r <= 255 && g <= 255 && b <= 255 {
            Ok::<MyColor, ColorError>(MyColor { r: r as u8, g: g as u8, b: b as u8, a: 255 })
        } else {
            Err(ColorError::InvalidChannel)
        }),
{
    let (tr, tg, tb) = (decimal_text(r), decimal_text(g), decimal_text(b));
    lemma_channel_text(r);
    lemma_channel_text(g);
    lemma_channel_text(b);
    let t = numbers_text(r, g, b);
    assert(t.last() == tb.last());
    lemma_split_extend(Seq::<char>::empty(), tr);
    assert(split_commas(Seq::<char>::empty()) == seq![Seq::<char>::empty()]);
    assert(Seq::<char>::empty() + tr =~= tr);
    lemma_split_then(tr, tg);
    lemma_split_then(tr + seq![','] + tg, tb);
    let f = color_fields(t);
    assert(f =~= seq![tr, tg, tb]);
    if r > 255 {
        assert(channel(f[0]) is None);
    } else if g > 255 {
        assert(channel(f[1]) is None);
    } else if b > 255 {
        assert(channel(f[2]) is None);
    }
}

/// Only a text with two commas (three channels) or three commas (four
/// channels) is a color; with two commas the color is opaque.
pub proof fn lemma_color_needs_three_or_four_channels(s: Seq<char>)
    ensures
        color_from_text(s) is Ok ==> comma_count(s) == 2 || comma_count(s) == 3,
        comma_count(s) == 2 && color_from_text(s) is Ok ==> color_from_text(s)->Ok_0.a == 255,
{
    lemma_split_count(strip_close_parens(s));
    lemma_strip_keeps_commas(s);
}

/// The text of four channel values reads back as the color of them.
pub proof fn lemma_rgba_text_parses(r: u8, g: u8, b: u8, a: u8)
    ensures
        color_from_text(rgba_text(r, g, b, a)) == Ok::<MyColor, ColorError>(MyColor { r, g, b, a }),
{
    let (tr, tg, tb, ta) = (
        decimal_text(r as nat),
        decimal_text(g as nat),
        decimal_text(b as nat),
        decimal_text(a as nat),
    );
    lemma_channel_text(r as nat);
    lemma_channel_text(g as nat);
    lemma_channel_text(b as nat);
    lemma_channel_text(a as nat);
    lemma_split_extend(Seq::<char>::empty(), tr);
    lemma_split_then(tr, tg);
    lemma_split_then(tr + seq![','] + tg, tb);
    lemma_split_then(tr + seq![','] + tg + seq![','] + tb, ta);
}

} // verus!
