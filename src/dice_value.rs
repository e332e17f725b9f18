//! Dice-valued quantities such as `2d6+4`: a number of six-sided dice and a
//! signed constant.

use vstd::prelude::*;

use crate::chance::roll_die;

verus! {

/// Sum of a sequence of die faces.
pub open spec fn face_sum(faces: Seq<u32>) -> int
    decreases faces.len(),
{
    if faces.len() == 0 {
        0
    } else {
        face_sum(faces.drop_last()) + faces.last()
    }
}

/// Every face is one a six-sided die can show.
pub open spec fn valid_faces(faces: Seq<u32>) -> bool {
    forall|i: int| 0 <= i < faces.len() ==> 1 <= #[trigger] faces[i] <= 6
}

/// `n` dice show at least `n` and at most `6 * n` in total.
pub proof fn lemma_face_sum_bounds(faces: Seq<u32>)
    requires
        valid_faces(faces),
    ensures
        faces.len() <= face_sum(faces) <= 6 * faces.len(),
    decreases faces.len(),
{
    if faces.len() > 0 {
        let rest = faces.drop_last();
        assert(valid_faces(rest)) by {
            assert forall|i: int| 0 <= i < rest.len() implies 1 <= #[trigger] rest[i] <= 6 by {
                assert(rest[i] == faces[i]);
            }
        }
        lemma_face_sum_bounds(rest);
        assert(1 <= faces[faces.len() - 1] <= 6);
    }
}


/// The number of dice that must be spent, taken in order, before their faces
/// cover `deficit`; `None` when all of `faces` together fall short.
pub open spec fn dice_spent(deficit: int, faces: Seq<u32>) -> Option<nat>
    decreases faces.len(),
{
    if deficit <= 0 {
        Some(0)
    } else if faces.len() == 0 {
        None
    } else {
        shifted(dice_spent(deficit - faces[0], faces.drop_first()), 1)
    }
}

/// A count of spent dice, raised by `n` dice spent beforehand.
pub open spec fn shifted(spent: Option<nat>, n: nat) -> Option<nat> {
    match spent {
        Some(k) => Some(k + n),
        None => None,
    }
}

proof fn lemma_dice_spent_bounded(deficit: int, faces: Seq<u32>)
    ensures
        dice_spent(deficit, faces) matches Some(k) ==> k <= faces.len(),
    decreases faces.len(),
{
    if deficit > 0 && faces.len() > 0 {
        lemma_dice_spent_bounded(deficit - faces[0], faces.drop_first());
    }
}

/// Spending dice covers the deficit exactly when the faces of the dice spent
/// sum to at least it; so it fails only if all faces together fall short.
proof fn lemma_dice_spent_covers(deficit: int, faces: Seq<u32>)
    requires
        valid_faces(faces),
    ensures
        dice_spent(deficit, faces) is None <==> deficit > face_sum(faces),
        dice_spent(deficit, faces) matches Some(k) ==> deficit <= 6 * k,
        deficit <= 0 ==> dice_spent(deficit, faces) == Some(0nat),
    decreases faces.len(),
{
    lemma_face_sum_bounds(faces);
    if deficit > 0 && faces.len() > 0 {
        let rest = faces.drop_first();
        assert(valid_faces(rest)) by {
            assert forall|i: int| 0 <= i < rest.len() implies 1 <= #[trigger] rest[i] <= 6 by {
                assert(rest[i] == faces[i + 1]);
            }
        }
        lemma_dice_spent_covers(deficit - faces[0], rest);
        lemma_face_sum_first(faces);
        assert(1 <= faces[0] <= 6);
    }
}

/// The sum of a sequence splits into its first face and the rest.
pub proof fn lemma_face_sum_first(faces: Seq<u32>)
    requires
        faces.len() > 0,
    ensures
        face_sum(faces) == faces[0] + face_sum(faces.drop_first()),
    decreases faces.len(),
{
    if faces.len() > 1 {
        let rest = faces.drop_first();
        lemma_face_sum_first(faces.drop_last());
        assert(faces.drop_last().drop_first() =~= rest.drop_last());
        assert(faces.drop_last()[0] == faces[0]);
        assert(rest.last() == faces.last());
    } else {
        assert(faces.drop_last() =~= Seq::<u32>::empty());
        assert(faces.drop_first() =~= Seq::<u32>::empty());
    }
}

/// A decimal digit.
pub open spec fn is_digit(c: char) -> bool {
    '0' <= c <= '9'
}

/// The value of a decimal digit.
pub open spec fn digit_value(c: char) -> int {
    c as int - '0' as int
}

/// The digit that shows `d`, for `d` below ten.
pub open spec fn digit_char(d: nat) -> char {
    if d == 0 { '0' }
    else if d == 1 { '1' }
    else if d == 2 { '2' }
    else if d == 3 { '3' }
    else if d == 4 { '4' }
    else if d == 5 { '5' }
    else if d == 6 { '6' }
    else if d == 7 { '7' }
    else if d == 8 { '8' }
    else { '9' }
}

/// The length of the run of digits that `s` starts with.
pub open spec fn digit_run(s: Seq<char>) -> nat
    decreases s.len(),
{
    if s.len() > 0 && is_digit(s[0]) {
        digit_run(s.drop_first()) + 1
    } else {
        0
    }
}

/// The number that a string of digits writes in decimal.
pub open spec fn digits_value(s: Seq<char>) -> nat
    decreases s.len(),
{
    if s.len() == 0 {
        0
    } else {
        (digits_value(s.drop_last()) * 10 + digit_value(s.last())) as nat
    }
}

/// `n` written in decimal, without leading zeros.
pub open spec fn decimal(n: nat) -> Seq<char>
    decreases n,
{
    if n < 10 {
        seq![digit_char(n)]
    } else {
        decimal(n / 10).push(digit_char(n % 10))
    }
}

/// `v` written in decimal, with a minus sign when it is negative.
pub open spec fn signed_decimal(v: int) -> Seq<char> {
    if v < 0 {
        seq!['-'] + decimal((-v) as nat)
    } else {
        decimal(v as nat)
    }
}

/// The text form of a dice value: `<dice>d6+<constant>`.
pub open spec fn dice_text(v: DiceValue) -> Seq<char> {
    decimal(v.dice as nat) + seq!['d', '6', '+'] + signed_decimal(v.constant as int)
}

/// `s` starts with a run of digits followed by `d6`.
pub open spec fn has_dice_part(s: Seq<char>) -> bool {
    let n = digit_run(s);
    n > 0 && n + 2 <= s.len() && s[n as int] == 'd' && s[n + 1int] == '6'
}

/// The count of dice that text `s` gives: the digits before `d6`, or zero when
/// there are none or their number does not fit in a `u32`.
pub open spec fn parsed_dice(s: Seq<char>) -> u32 {
    let v = digits_value(s.take(digit_run(s) as int));
    if has_dice_part(s) && v <= u32::MAX {
        v as u32
    } else {
        0
    }
}

/// The text that follows the dice part of `s`, if there is one.
pub open spec fn constant_text(s: Seq<char>) -> Seq<char> {
    if has_dice_part(s) {
        s.skip(digit_run(s) + 2int)
    } else {
        s
    }
}

/// `t` starts with a sign.
pub open spec fn has_sign(t: Seq<char>) -> bool {
    t.len() > 0 && (t[0] == '+' || t[0] == '-')
}

/// The constant that text `t` starts with: an optional sign and a run of
/// digits; zero when there are no digits or the number does not fit in an `i32`.
pub open spec fn parsed_constant(t: Seq<char>) -> i32 {
    let body = if has_sign(t) { t.drop_first() } else { t };
    let m = digit_run(body);
    let magnitude = digits_value(body.take(m as int));
    let v = if has_sign(t) && t[0] == '-' { -magnitude } else { magnitude as int };
    if m > 0 && i32::MIN <= v <= i32::MAX {
        v as i32
    } else {
        0
    }
}

/// The dice value that text `s` describes: an optional `<digits>d6` and an
/// optional signed constant, at the start of `s`. A missing or unreadable part
/// counts as zero.
pub open spec fn parse_dice(s: Seq<char>) -> DiceValue {
    DiceValue { dice: parsed_dice(s), constant: parsed_constant(constant_text(s)) }
}

proof fn lemma_digit_run_exact(t: Seq<char>, n: nat)
    requires
        n <= t.len(),
        forall|j: int| 0 <= j < n ==> is_digit(#[trigger] t[j]),
        n == t.len() || !is_digit(t[n as int]),
    ensures
        digit_run(t) == n,
    decreases n,
{
    if n > 0 {
        let rest = t.drop_first();
        assert forall|j: int| 0 <= j < n - 1 implies is_digit(#[trigger] rest[j]) by {
            assert(rest[j] == t[j + 1]);
        }
        if n < t.len() {
            assert(rest[n - 1] == t[n as int]);
        }
        lemma_digit_run_exact(rest, (n - 1) as nat);
        assert(is_digit(t[0]));
    }
}

/// Every character inside the run of digits is a digit.
proof fn lemma_digit_run_prefix(s: Seq<char>, j: int)
    requires
        0 <= j < digit_run(s),
    ensures
        j < s.len(),
        is_digit(s[j]),
    decreases j,
{
    assert(s.len() > 0 && is_digit(s[0]));
    if j > 0 {
        lemma_digit_run_prefix(s.drop_first(), j - 1);
        assert(s.drop_first()[j - 1] == s[j]);
    }
}

proof fn lemma_decimal_digits(n: nat)
    ensures
        decimal(n).len() >= 1,
        forall|j: int| 0 <= j < decimal(n).len() ==> is_digit(#[trigger] decimal(n)[j]),
        digits_value(decimal(n)) == n,
    decreases n,
{
    if n >= 10 {
        lemma_decimal_digits(n / 10);
        let d = decimal(n);
        assert(d.drop_last() =~= decimal(n / 10));
        assert(digit_value(digit_char(n % 10)) == n % 10);
        assert(d.last() == digit_char(n % 10));
        assert((n / 10) * 10 + n % 10 == n) by (nonlinear_arith);
        assert(digits_value(d.drop_last()) == n / 10);
        assert(digits_value(d) == digits_value(d.drop_last()) * 10 + digit_value(d.last()));
        assert forall|j: int| 0 <= j < d.len() implies is_digit(#[trigger] d[j]) by {
            if j < d.len() - 1 {
                assert(d[j] == decimal(n / 10)[j]);
            }
        }
    } else {
        assert(decimal(n).drop_last() =~= Seq::<char>::empty());
        assert(digit_value(digit_char(n)) == n);
        assert(digits_value(decimal(n)) == digits_value(decimal(n).drop_last()) * 10
            + digit_value(decimal(n).last()));
    }
}

/// What a digit string is followed by does not change the run of digits it
/// starts, when that follower is no digit.
proof fn lemma_digit_run_of_decimal(n: nat, rest: Seq<char>)
    requires
        rest.len() == 0 || !is_digit(rest[0]),
    ensures
        digit_run(decimal(n) + rest) == decimal(n).len(),
        (decimal(n) + rest).take(decimal(n).len() as int) == decimal(n),
{
    lemma_decimal_digits(n);
    let d = decimal(n);
    let t = d + rest;
    assert forall|j: int| 0 <= j < d.len() implies is_digit(#[trigger] t[j]) by {
        assert(t[j] == d[j]);
    }
    if rest.len() > 0 {
        assert(t[d.len() as int] == rest[0]);
    }
    lemma_digit_run_exact(t, d.len());
    assert(t.take(d.len() as int) =~= d);
}

/// Reading back the text form of a dice value with no negative constant gives
/// the same value: its dice and its constant both come back exactly.
pub proof fn lemma_text_round_trip(v: DiceValue)
    requires
        v.constant >= 0,
    ensures
        parse_dice(dice_text(v)) == v,
{
    let d = decimal(v.dice as nat);
    let k = decimal(v.constant as nat);
    let tail = seq!['d', '6', '+'] + k;
    let s = dice_text(v);
    assert(s =~= d + tail);
    lemma_digit_run_of_decimal(v.dice as nat, tail);
    lemma_decimal_digits(v.dice as nat);
    assert(s[d.len() as int] == 'd');
    assert(s[d.len() + 1int] == '6');
    assert(has_dice_part(s));
    let t = constant_text(s);
    assert(t =~= seq!['+'] + k);
    assert(has_sign(t));
    let body = t.drop_first();
    assert(body =~= k + Seq::<char>::empty());
    lemma_digit_run_of_decimal(v.constant as nat, Seq::<char>::empty());
    lemma_decimal_digits(v.constant as nat);
}

/// The text with no dice part and no constant reads as zero dice and a zero
/// constant.
pub proof fn lemma_empty_text()
    ensures
        parse_dice(Seq::<char>::empty()) == (DiceValue { dice: 0, constant: 0 }),
{
}

#[derive(Debug, Clone, Copy, PartialEq, Eq, Structural, Hash)]
pub struct DiceValue {
    pub dice: u32,
    pub constant: i32,
}

impl Default for DiceValue {
    fn default() -> (r: DiceValue)
        ensures
            r.dice == 0,
            r.constant == 0,
    {
        DiceValue { dice: 0, constant: 0 }
    }
}

impl DiceValue {
    /// The largest total a roll can reach: every die shows six.
    pub open spec fn limit(self) -> int {
        6 * self.dice + self.constant
    }

    /// The smallest total a roll can reach: every die shows one.
    pub open spec fn floor(self) -> int {
        self.dice + self.constant
    }

    /// Every total a roll can produce fits in a `u32`.
    pub open spec fn rollable(self) -> bool {
        0 <= self.floor() && self.limit() <= u32::MAX
    }

    /// A value held as a resource: no negative constant, and a limit that fits
    /// in a `u32`.
    pub open spec fn wf(self) -> bool {
        self.constant >= 0 && self.limit() <= u32::MAX
    }

    /// The total shown by a roll whose dice came up `faces`.
    pub open spec fn total(self, faces: Seq<u32>) -> int {
        self.constant + face_sum(faces)
    }

    /// What is left after spending dice of `self`, in the order of `faces`,
    /// until `target` is covered; `None` when even all of them fall short.
    pub open spec fn drained(self, target: int, faces: Seq<u32>) -> Option<DiceValue> {
        match dice_spent(target - self.constant, faces) {
            Some(k) => Some(DiceValue { dice: (self.dice - k) as u32, constant: self.constant }),
            None => None,
        }
    }

    /// Reads a dice value from text such as `2d6+4`, `4d6`, `-5` or the empty
    /// text: an optional `<digits>d6`, then an optional signed constant, at the
    /// start of `source`. A missing or unreadable part counts as zero.
    pub fn parse(source: &str) -> (r: DiceValue)
        ensures
            r == parse_dice(source@),
    {
        let ghost s = source@;
        let len = source.unicode_len();
        let n = digit_run_end(source, 0, len);
        assert(s.skip(0) =~= s);
        let mut dice: u32 = 0;
        let mut rest: usize = 0;
        if n > 0 && n < len && n + 1 < len && source.get_char(n) == 'd' && source.get_char(n + 1) == '6' {
            proof {
                assert(s.subrange(0, n as int) =~= s.take(digit_run(s) as int));
                assert forall|j: int| 0 <= j < n implies is_digit(#[trigger] s[j]) by {
                    assert(s.skip(0)[j] == s[j]);
                    lemma_digit_run_prefix(s, j);
                }
            }
            dice = match read_digits(source, 0, n) {
                Some(v) => v,
                None => 0,
            };
            rest = n + 2;
        }
        assert(constant_text(s) =~= s.skip(rest as int));
        let ghost t = s.skip(rest as int);
        let mut start: usize = rest;
        let mut negative = false;
        if rest < len {
            let c = source.get_char(rest);
            assert(t[0] == c);
            if c == '+' || c == '-' {
                negative = c == '-';
                start = rest + 1;
                assert(t.drop_first() =~= s.skip(start as int));
            }
        }
        let end = digit_run_end(source, start, len);
        let ghost body = s.skip(start as int);
        proof {
            assert(body.take((end - start) as int) =~= s.subrange(start as int, end as int));
            assert forall|j: int| start <= j < end implies is_digit(#[trigger] s[j]) by {
                assert(body[j - start] == s[j]);
                lemma_digit_run_prefix(body, j - start);
            }
        }
        let mut constant: i32 = 0;
        if end > start {
            match read_digits(source, start, end) {
                Some(v) => {
                    if negative {
                        if v <= 2147483648 {
                            constant = (0 - v as i64) as i32;
                        }
                    } else if v <= 2147483647 {
                        constant = v as i32;
                    }
                },
                None => {},
            }
        }
        DiceValue { dice, constant }
    }

    /// The text form `<dice>d6+<constant>`.
    pub fn as_string(&self) -> (r: String)
        ensures
            r@ == dice_text(*self),
    {
        let mut out = String::new();
        push_decimal(&mut out, self.dice);
        proof { reveal_strlit("d6+"); }
        out.append("d6+");
        if self.constant < 0 {
            proof { reveal_strlit("-"); }
            out.append("-");
            push_decimal(&mut out, (0 - self.constant as i64) as u32);
        } else {
            push_decimal(&mut out, self.constant as u32);
        }
        assert(out@ =~= dice_text(*self));
        out
    }

    /// A roll of `self`, with fresh faces for its dice.
    pub fn roll(&self) -> (r: u32)
        requires
            self.rollable(),
        ensures
            exists|faces: Seq<u32>|
                faces.len() == self.dice && valid_faces(faces) && r == self.total(faces),
            self.floor() <= r <= self.limit(),
    {
        let faces = roll_faces(self.dice);
        let r = self.roll_with(&faces);
        proof {
            lemma_face_sum_bounds(faces@);
        }
        r
    }

    /// Spends dice of `self` in the order of `faces` until their faces cover
    /// `target` less the constant. The result keeps the constant and the dice
    /// not spent; `None` when all the dice together fall short.
    pub fn drained_with(&self, target: u32, faces: &Vec<u32>) -> (r: Option<DiceValue>)
        requires
            faces.len() == self.dice,
            valid_faces(faces@),
        ensures
            r == self.drained(target as int, faces@),
    {
        let ghost start: int = target as int - self.constant as int;
        let mut deficit: i64 = target as i64 - self.constant as i64;
        let mut used: usize = 0;
        assert(faces@.skip(0) =~= faces@);
        while used < faces.len()
            invariant
                used <= faces.len() == self.dice,
                valid_faces(faces@),
                deficit <= start,
                start == target as int - self.constant,
                dice_spent(start, faces@) == shifted(
                    dice_spent(deficit as int, faces@.skip(used as int)),
                    used as nat,
                ),
            decreases faces.len() - used,
        {
            if deficit <= 0 {
                proof {
                    assert(dice_spent(deficit as int, faces@.skip(used as int)) == Some(0nat));
                    assert(dice_spent(start, faces@) == Some(used as nat));
                }
                return Some(DiceValue { dice: self.dice - used as u32, constant: self.constant });
            }
            proof {
                let rest = faces@.skip(used as int);
                assert(rest[0] == faces@[used as int]);
                assert(rest.drop_first() =~= faces@.skip(used + 1));
            }
            deficit = deficit - faces[used] as i64;
            used = used + 1;
        }
        proof {
            assert(faces@.skip(used as int) =~= Seq::<u32>::empty());
        }
        if deficit <= 0 {
            Some(DiceValue { dice: 0, constant: self.constant })
        } else {
            None
        }
    }

    /// Spends dice of `self`, rolled one at a time, until their faces cover
    /// `target` less the constant; `None` when all the dice together fall short.
    pub fn drained_to_match(&self, target: u32) -> (r: Option<DiceValue>)
        ensures
            exists|faces: Seq<u32>|
                faces.len() == self.dice && valid_faces(faces) && r == self.drained(target as int, faces),
            r matches Some(v) ==> v.constant == self.constant && v.dice <= self.dice
                && target <= self.constant + 6 * (self.dice - v.dice),
            target <= self.constant ==> r == Some(*self),
            target > self.limit() ==> r is None,
            r is None ==> target > self.floor(),
    {
        let faces = roll_faces(self.dice);
        let r = self.drained_with(target, &faces);
        proof {
            lemma_dice_spent_bounded(target - self.constant, faces@);
            lemma_dice_spent_covers(target - self.constant, faces@);
            lemma_face_sum_bounds(faces@);
        }
        r
    }

    /// Adds the dice and the constants of `rhs`.
    pub fn add_assign(&mut self, rhs: DiceValue)
        requires
            old(self).dice + rhs.dice <= u32::MAX,
            i32::MIN <= old(self).constant + rhs.constant <= i32::MAX,
        ensures
            final(self).dice == old(self).dice + rhs.dice,
            final(self).constant == old(self).constant + rhs.constant,
    {
        self.dice = self.dice + rhs.dice;
        self.constant = self.constant + rhs.constant;
    }

    /// Takes away the dice and the constant of `rhs`.
    pub fn sub_assign(&mut self, rhs: DiceValue)
        requires
            old(self).dice >= rhs.dice,
            i32::MIN <= old(self).constant - rhs.constant <= i32::MAX,
        ensures
            final(self).dice == old(self).dice - rhs.dice,
            final(self).constant == old(self).constant - rhs.constant,
    {
        self.dice = self.dice - rhs.dice;
        self.constant = self.constant - rhs.constant;
    }

    pub fn theoretical_limit(&self) -> (r: u32)
        requires
            0 <= self.limit() <= u32::MAX,
        ensures
            r == self.limit(),
    {
        (6 * self.dice as i64 + self.constant as i64) as u32
    }

    /// The total of a roll whose dice came up `faces`, one face per die.
    pub fn roll_with(&self, faces: &Vec<u32>) -> (r: u32)
        requires
            self.rollable(),
            faces.len() == self.dice,
            valid_faces(faces@),
        ensures
            r == self.total(faces@),
    {
        let mut acc: i64 = self.constant as i64;
        let mut i: usize = 0;
        while i < faces.len()
            invariant
                i <= faces.len() == self.dice,
                valid_faces(faces@),
                acc == self.constant + face_sum(faces@.take(i as int)),
                i <= face_sum(faces@.take(i as int)) <= 6 * i,
            decreases faces.len() - i,
        {
            proof {
                assert(faces@.take(i + 1).drop_last() =~= faces@.take(i as int));
                assert(1 <= faces@[i as int] <= 6);
            }
            acc = acc + faces[i] as i64;
            i = i + 1;
        }
        proof {
            assert(faces@.take(i as int) =~= faces@);
        }
        acc as u32
    }
}

fn is_ascii_digit(c: char) -> (r: bool)
    ensures
        r == is_digit(c),
{
    '0' <= c && c <= '9'
}

impl<'a> From<&'a str> for DiceValue {
    fn from(source: &'a str) -> DiceValue {
        DiceValue::parse(source)
    }
}

impl<'a> vstd::std_specs::convert::FromSpecImpl<&'a str> for DiceValue {
    open spec fn obeys_from_spec() -> bool {
        true
    }

    open spec fn from_spec(v: &'a str) -> DiceValue {
        parse_dice(v@)
    }
}

/// Where the run of digits that starts at `start` ends.
fn digit_run_end(s: &str, start: usize, len: usize) -> (end: usize)
    requires
        len == s@.len(),
        start <= len,
    ensures
        start <= end <= len,
        end - start == digit_run(s@.skip(start as int)),
{
    let mut i: usize = start;
    while i < len && is_ascii_digit(s.get_char(i))
        invariant
            start <= i <= len == s@.len(),
            forall|j: int| start <= j < i ==> is_digit(#[trigger] s@[j]),
        decreases len - i,
    {
        i = i + 1;
    }
    proof {
        let t = s@.skip(start as int);
        assert forall|j: int| 0 <= j < i - start implies is_digit(#[trigger] t[j]) by {
            assert(t[j] == s@[start + j]);
        }
        if i < len {
            assert(t[i - start] == s@[i as int]);
        }
        lemma_digit_run_exact(t, (i - start) as nat);
    }
    i
}

/// The number written by the digits of `s` from `from` up to `to`, or `None`
/// when it does not fit in a `u32`.
fn read_digits(s: &str, from: usize, to: usize) -> (r: Option<u32>)
    requires
        from <= to <= s@.len(),
        forall|j: int| from <= j < to ==> is_digit(#[trigger] s@[j]),
    ensures
        r == (if digits_value(s@.subrange(from as int, to as int)) <= u32::MAX {
            Some(digits_value(s@.subrange(from as int, to as int)) as u32)
        } else {
            None
        }),
{
    let mut acc: u64 = 0;
    let mut over = false;
    let mut i: usize = from;
    assert(s@.subrange(from as int, from as int) =~= Seq::<char>::empty());
    while i < to
        invariant
            from <= i <= to <= s@.len(),
            forall|j: int| from <= j < to ==> is_digit(#[trigger] s@[j]),
            !over ==> acc == digits_value(s@.subrange(from as int, i as int)) && acc <= u32::MAX,
            over ==> digits_value(s@.subrange(from as int, i as int)) > u32::MAX,
        decreases to - i,
    {
        let c = s.get_char(i);
        let d = (c as u32 - '0' as u32) as u64;
        proof {
            let next = s@.subrange(from as int, i + 1);
            assert(next.drop_last() =~= s@.subrange(from as int, i as int));
            assert(next.last() == c);
            assert(is_digit(s@[i as int]));
        }
        if !over {
            let next = acc * 10 + d;
            if next > u32::MAX as u64 {
                over = true;
            } else {
                acc = next;
            }
        }
        i = i + 1;
    }
    if over {
        None
    } else {
        Some(acc as u32)
    }
}

/// Appends `n` in decimal to `out`.
fn push_decimal(out: &mut String, n: u32)
    ensures
        final(out)@ == old(out)@ + decimal(n as nat),
    decreases n,
{
    if n >= 10 {
        push_decimal(out, n / 10);
    }
    out.append(digit_str(n % 10));
    proof {
        if n >= 10 {
            assert(decimal(n as nat) == decimal((n / 10) as nat).push(digit_char((n % 10) as nat)));
        }
    }
    assert(final(out)@ =~= old(out)@ + decimal(n as nat));
}

/// The one-character text of digit `d`.
fn digit_str(d: u32) -> (r: &'static str)
    requires
        d < 10,
    ensures
        r@ == seq![digit_char(d as nat)],
{
    if d == 0 {
        proof { reveal_strlit("0"); }
        "0"
    } else if d == 1 {
        proof { reveal_strlit("1"); }
        "1"
    } else if d == 2 {
        proof { reveal_strlit("2"); }
        "2"
    } else if d == 3 {
        proof { reveal_strlit("3"); }
        "3"
    } else if d == 4 {
        proof { reveal_strlit("4"); }
        "4"
    } else if d == 5 {
        proof { reveal_strlit("5"); }
        "5"
    } else if d == 6 {
        proof { reveal_strlit("6"); }
        "6"
    } else if d == 7 {
        proof { reveal_strlit("7"); }
        "7"
    } else if d == 8 {
        proof { reveal_strlit("8"); }
        "8"
    } else {
        proof { reveal_strlit("9"); }
        "9"
    }
}

/// Faces of `n` dice, each rolled afresh.
fn roll_faces(n: u32) -> (faces: Vec<u32>)
    ensures
        faces.len() == n,
        valid_faces(faces@),
{
    let mut faces: Vec<u32> = Vec::new();
    let mut i: u32 = 0;
    while i < n
        invariant
            i <= n,
            faces.len() == i,
            valid_faces(faces@),
        decreases n - i,
    {
        let face = roll_die();
        faces.push(face);
        i = i + 1;
    }
    faces
}

/// No roll of `v` exceeds its theoretical limit, nor falls below `v.floor()`.
pub proof fn lemma_roll_within_limit(v: DiceValue, faces: Seq<u32>)
    requires
        faces.len() == v.dice,
        valid_faces(faces),
    ensures
        v.floor() <= v.total(faces) <= v.limit(),
{
    lemma_face_sum_bounds(faces);
}

} // verus!
