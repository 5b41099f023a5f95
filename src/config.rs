//! Bindings of gestures to actions, and the grammar that names a gesture.
use vstd::prelude::*;

use crate::compound::Gesture;
use crate::geom::Direction;
use vstd::string::StringSliceAdditionalSpecFns;
use vstd::utf8::encode_utf8;

verus! {

/// Whether `c` is ASCII whitespace.
pub open spec fn is_space(c: u8) -> bool {
    c == 32 || (9 <= c && c <= 13)
}

/// The words finished among the first `n` bytes of `b`, and the word still open after them.
pub open spec fn scan_words(b: Seq<u8>, n: int) -> (Seq<Seq<u8>>, Seq<u8>)
    decreases n,
{
    if n <= 0 {
        (Seq::empty(), Seq::empty())
    } else {
        let (ws, cur) = scan_words(b, n - 1);
        if is_space(b[n - 1]) {
            if cur.len() > 0 {
                (ws.push(cur), Seq::empty())
            } else {
                (ws, cur)
            }
        } else {
            (ws, cur.push(b[n - 1]))
        }
    }
}

/// The maximal runs of non-whitespace bytes of `b`, in order.
pub open spec fn words(b: Seq<u8>) -> Seq<Seq<u8>> {
    let (ws, cur) = scan_words(b, b.len() as int);
    if cur.len() > 0 {
        ws.push(cur)
    } else {
        ws
    }
}

/// Whether every byte of `w` is an ASCII digit.
pub open spec fn all_digits(w: Seq<u8>) -> bool {
    forall|i: int| 0 <= i < w.len() ==> 48 <= #[trigger] w[i] <= 57
}

/// The decimal value of the digits `w`.
pub open spec fn digits_value(w: Seq<u8>) -> int
    decreases w.len(),
{
    if w.len() == 0 {
        0
    } else {
        digits_value(w.drop_last()) * 10 + (w.last() - 48)
    }
}

/// The number of fingers that the word `w` names: one or more digits whose value fits a `u8`.
pub open spec fn finger_count(w: Seq<u8>) -> Option<u8> {
    if w.len() > 0 && all_digits(w) && digits_value(w) <= 255 {
        Some(digits_value(w) as u8)
    } else {
        None
    }
}

/// The direction that the word `w` names.
pub open spec fn direction_word(w: Seq<u8>) -> Option<Direction> {
    if w == seq![117u8, 112u8] {  // up
        Some(Direction::Up)
    } else if w == seq![100u8, 111u8, 119u8, 110u8] {  // down
        Some(Direction::Down)
    } else if w == seq![108u8, 101u8, 102u8, 116u8] {  // left
        Some(Direction::Left)
    } else if w == seq![114u8, 105u8, 103u8, 104u8, 116u8] {  // right
        Some(Direction::Right)
    } else {
        None
    }
}

/// The swipe named by the words after `swipe`: an optional number of fingers, three if it is
/// absent, then a direction, and nothing more.
pub open spec fn parse_swipe_spec(ws: Seq<Seq<u8>>) -> Option<Gesture> {
    if ws.len() == 0 {
        None
    } else {
        match finger_count(ws[0]) {
            Some(n) => if ws.len() == 2 {
                match direction_word(ws[1]) {
                    Some(d) => Some(Gesture::Swipe { num_fingers: n, direction: d }),
                    None => None,
                }
            } else {
                None
            },
            None => if ws.len() == 1 {
                match direction_word(ws[0]) {
                    Some(d) => Some(Gesture::Swipe { num_fingers: 3, direction: d }),
                    None => None,
                }
            } else {
                None
            },
        }
    }
}

/// The gesture named by the text `b`: `swipe [fingers] direction`, words separated by
/// whitespace.
pub open spec fn parse_gesture_spec(b: Seq<u8>) -> Option<Gesture> {
    let ws = words(b);
    // the first word is `swipe`
    if ws.len() > 0 && ws[0] == seq![115u8, 119u8, 105u8, 112u8, 101u8] {
        parse_swipe_spec(ws.skip(1))
    } else {
        None
    }
}

fn is_space_byte(c: u8) -> (r: bool)
    ensures
        r == is_space(c),
{
    c == 32 || (9 <= c && c <= 13)
}

/// The words of a vector of words.
pub open spec fn words_view(ws: Seq<Vec<u8>>) -> Seq<Seq<u8>> {
    ws.map_values(|w: Vec<u8>| w@)
}

/// Splits `b` into its maximal runs of non-whitespace bytes.
pub fn split_words(b: &[u8]) -> (r: Vec<Vec<u8>>)
    ensures
        words_view(r@) == words(b@),
{
    let mut ws: Vec<Vec<u8>> = Vec::new();
    let mut cur: Vec<u8> = Vec::new();
    let mut i: usize = 0;
    while i < b.len()
        invariant
            i <= b@.len(),
            (words_view(ws@), cur@) == scan_words(b@, i as int),
        decreases b@.len() - i,
    {
        if is_space_byte(b[i]) {
            if cur.len() > 0 {
                let ghost before = ws@;
                ws.push(cur);
                cur = Vec::new();
                proof {
                    assert(words_view(ws@) =~= words_view(before).push(
                        scan_words(b@, i as int).1,
                    ));
                }
            }
        } else {
            cur.push(b[i]);
        }
        i = i + 1;
    }
    if cur.len() > 0 {
        let ghost before = ws@;
        ws.push(cur);
        proof {
            assert(words_view(ws@) =~= words_view(before).push(scan_words(b@, i as int).1));
        }
    }
    proof {
        assert(b@.len() == i);
    }
    ws
}

/// Whether the word `w` is `lit`.
fn word_is(w: &Vec<u8>, lit: &[u8]) -> (r: bool)
    ensures
        r == (w@ == lit@),
{
    if w.len() != lit.len() {
        return false;
    }
    let mut i: usize = 0;
    while i < w.len()
        invariant
            i <= w@.len(),
            w@.len() == lit@.len(),
            forall|j: int| 0 <= j < i ==> w@[j] == lit@[j],
        decreases w@.len() - i,
    {
        if w[i] != lit[i] {
            return false;
        }
        i = i + 1;
    }
    assert(w@ =~= lit@);
    true
}

proof fn lemma_digits_grow(w: Seq<u8>, n: int)
    requires
        0 <= n <= w.len(),
        all_digits(w),
    ensures
        digits_value(w.take(n)) <= digits_value(w),
        0 <= digits_value(w.take(n)),
    decreases w.len() - n,
{
    if n < w.len() {
        lemma_digits_grow(w, n + 1);
        let p = w.take(n + 1);
        assert(p.drop_last() =~= w.take(n));
        assert(p.last() == w[n]);
    } else {
        assert(w.take(n) =~= w);
        lemma_digits_nonneg(w);
    }
}

proof fn lemma_digits_nonneg(w: Seq<u8>)
    requires
        all_digits(w),
    ensures
        digits_value(w) >= 0,
    decreases w.len(),
{
    if w.len() > 0 {
        assert(all_digits(w.drop_last())) by {
            assert forall|i: int| 0 <= i < w.drop_last().len() implies 48 <= #[trigger] w.drop_last()[i] <= 57 by {
                assert(w.drop_last()[i] == w[i]);
            }
        }
        lemma_digits_nonneg(w.drop_last());
        assert(48 <= w[w.len() - 1] <= 57);
    }
}

/// The number of fingers that the word `w` names, if it names one.
fn parse_finger_count(w: &Vec<u8>) -> (r: Option<u8>)
    ensures
        r == finger_count(w@),
{
    if w.len() == 0 {
        return None;
    }
    let mut v: u32 = 0;
    let mut i: usize = 0;
    while i < w.len()
        invariant
            i <= w@.len(),
            all_digits(w@.take(i as int)),
            v == digits_value(w@.take(i as int)),
            v <= 255,
        decreases w@.len() - i,
    {
        let c = w[i];
        if c < 48 || c > 57 {
            assert(!all_digits(w@)) by {
                assert(w@[i as int] == c);
            }
            return None;
        }
        let ghost p = w@.take(i + 1);
        proof {
            assert(p.drop_last() =~= w@.take(i as int));
            assert(p.last() == c);
            assert forall|j: int| 0 <= j < p.len() implies 48 <= #[trigger] p[j] <= 57 by {
                if j < i {
                    assert(p[j] == w@.take(i as int)[j]);
                }
            }
        }
        v = v * 10 + (c - 48) as u32;
        if v > 255 {
            proof {
                if all_digits(w@) {
                    lemma_digits_grow(w@, i + 1);
                }
            }
            return None;
        }
        i = i + 1;
    }
    proof {
        assert(w@.take(i as int) =~= w@);
    }
    Some(v as u8)
}

/// The direction that the word `w` names, if it names one.
fn parse_direction(w: &Vec<u8>) -> (r: Option<Direction>)
    ensures
        r == direction_word(w@),
{
    let up: [u8; 2] = [117u8, 112u8];
    let down: [u8; 4] = [100u8, 111u8, 119u8, 110u8];
    let left: [u8; 4] = [108u8, 101u8, 102u8, 116u8];
    let right: [u8; 5] = [114u8, 105u8, 103u8, 104u8, 116u8];
    proof {
        assert(up@ =~= seq![117u8, 112u8]);
        assert(down@ =~= seq![100u8, 111u8, 119u8, 110u8]);
        assert(left@ =~= seq![108u8, 101u8, 102u8, 116u8]);
        assert(right@ =~= seq![114u8, 105u8, 103u8, 104u8, 116u8]);
    }
    if word_is(w, &up) {
        Some(Direction::Up)
    } else if word_is(w, &down) {
        Some(Direction::Down)
    } else if word_is(w, &left) {
        Some(Direction::Left)
    } else if word_is(w, &right) {
        Some(Direction::Right)
    } else {
        None
    }
}

/// The swipe named by the words `ws[from..]`, which follow `swipe`.
fn parse_swipe(ws: &Vec<Vec<u8>>, from: usize) -> (r: Option<Gesture>)
    requires
        from <= ws@.len(),
    ensures
        r == parse_swipe_spec(words_view(ws@).skip(from as int)),
{
    let ghost rest = words_view(ws@).skip(from as int);
    let n = ws.len() - from;
    if n == 0 {
        return None;
    }
    proof {
        assert(rest[0] == ws@[from as int]@);
    }
    match parse_finger_count(&ws[from]) {
        Some(count) => {
            if n != 2 {
                return None;
            }
            proof {
                assert(rest[1] == ws@[from + 1]@);
            }
            match parse_direction(&ws[from + 1]) {
                Some(d) => Some(Gesture::Swipe { num_fingers: count, direction: d }),
                None => None,
            }
        },
        None => {
            if n != 1 {
                return None;
            }
            match parse_direction(&ws[from]) {
                Some(d) => Some(Gesture::Swipe { num_fingers: 3, direction: d }),
                None => None,
            }
        },
    }
}

/// The gesture named by `s`: `swipe`, an optional number of fingers (three if it is absent) and
/// a direction, separated by whitespace.
pub fn parse_gesture(s: &str) -> (r: Option<Gesture>)
    ensures
        r == parse_gesture_spec(s.spec_bytes()),
{
    let ws = split_words(s.as_bytes());
    let swipe: [u8; 5] = [115u8, 119u8, 105u8, 112u8, 101u8];
    proof {
        assert(swipe@ =~= seq![115u8, 119u8, 105u8, 112u8, 101u8]);
    }
    if ws.len() == 0 {
        return None;
    }
    proof {
        assert(words_view(ws@)[0] == ws@[0]@);
    }
    if word_is(&ws[0], &swipe) {
        parse_swipe(&ws, 1)
    } else {
        None
    }
}

/// What to do when a gesture is recognized.
#[derive(Clone, Debug, PartialEq, Eq, Hash)]
pub enum Action {
    /// Runs `command` with `args`.
    Command { command: String, args: Vec<String> },
}

/// One entry of the binding file, as written there.
#[derive(Clone, Debug, PartialEq, Eq)]
pub struct Binding {
    pub gesture: String,
    pub command: String,
    pub args: Vec<String>,
}

/// Why a set of bindings was refused.
#[derive(Clone, Copy, Debug, PartialEq, Eq, Structural)]
pub enum ConfigError {
    /// A binding names no gesture of the grammar.
    BadGesture,
    /// Two bindings name the same gesture.
    DuplicateBinding,
}

/// The gesture that a binding names.
pub open spec fn binding_gesture(b: Binding) -> Option<Gesture> {
    parse_gesture_spec(encode_utf8(b.gesture@))
}

impl Binding {
    /// The gesture named by this binding and its action, or `BadGesture` if it names none.
    pub fn to_binding(self) -> (r: Result<(Gesture, Action), ConfigError>)
        ensures
            match binding_gesture(self) {
                Some(g) => r == Ok::<(Gesture, Action), ConfigError>(
                    (g, Action::Command { command: self.command, args: self.args }),
                ),
                None => r == Err::<(Gesture, Action), ConfigError>(ConfigError::BadGesture),
            },
    {
        match parse_gesture(self.gesture.as_str()) {
            Some(g) => Ok((g, Action::Command { command: self.command, args: self.args })),
            None => Err(ConfigError::BadGesture),
        }
    }
}

/// The contents of a binding file.
#[derive(Clone, Debug, PartialEq, Eq)]
pub struct ConfigFile {
    pub bindings: Vec<Binding>,
}

/// Reading the first `n` bindings of `bs` in order: the gestures they name, or the error of
/// the first one that names no gesture or a gesture named before.
pub open spec fn config_result(bs: Seq<Binding>, n: int) -> Result<Seq<Gesture>, ConfigError>
    decreases n,
{
    if n <= 0 {
        Ok(Seq::empty())
    } else {
        match config_result(bs, n - 1) {
            Err(e) => Err(e),
            Ok(seen) => match binding_gesture(bs[n - 1]) {
                None => Err(ConfigError::BadGesture),
                Some(g) => if seen.contains(g) {
                    Err(ConfigError::DuplicateBinding)
                } else {
                    Ok(seen.push(g))
                },
            },
        }
    }
}

/// The action that a binding asks for.
pub open spec fn binding_action(b: Binding) -> Action {
    Action::Command { command: b.command, args: b.args }
}

/// The gestures of a list of bindings.
pub open spec fn gestures_of(v: Seq<(Gesture, Action)>) -> Seq<Gesture> {
    v.map_values(|b: (Gesture, Action)| b.0)
}

/// The actions of a list of bindings.
pub open spec fn actions_of(v: Seq<(Gesture, Action)>) -> Seq<Action> {
    v.map_values(|b: (Gesture, Action)| b.1)
}

/// The number of fingers of a gesture.
pub open spec fn fingers_of(g: Gesture) -> u8 {
    match g {
        Gesture::Swipe { num_fingers, .. } => num_fingers,
    }
}

/// The gestures bound to actions; no gesture is bound twice.
pub struct Config {
    bindings: Vec<(Gesture, Action)>,
}

fn contains_gesture(v: &Vec<(Gesture, Action)>, g: Gesture) -> (r: bool)
    ensures
        r == gestures_of(v@).contains(g),
{
    let mut i: usize = 0;
    while i < v.len()
        invariant
            i <= v@.len(),
            forall|j: int| 0 <= j < i ==> v@[j].0 != g,
        decreases v@.len() - i,
    {
        if v[i].0 == g {
            assert(gestures_of(v@)[i as int] == g);
            return true;
        }
        i = i + 1;
    }
    assert(!gestures_of(v@).contains(g)) by {
        if gestures_of(v@).contains(g) {
            let j = choose|j: int| 0 <= j < gestures_of(v@).len() && gestures_of(v@)[j] == g;
            assert(v@[j].0 == g);
        }
    }
    false
}

impl Config {
    #[verifier::type_invariant]
    spec fn unique(self) -> bool {
        gestures_of(self.bindings@).no_duplicates()
    }

    /// The bound gestures, in the order of the file.
    pub closed spec fn gestures(self) -> Seq<Gesture> {
        gestures_of(self.bindings@)
    }

    /// The action of each bound gesture, in the same order.
    pub closed spec fn actions(self) -> Seq<Action> {
        actions_of(self.bindings@)
    }

    /// The action bound to `g`, if there is one.
    pub fn action_for(&self, g: &Gesture) -> (r: Option<&Action>)
        ensures
            r is Some <==> self.gestures().contains(*g),
            r matches Some(a) ==> exists|i: int|
                0 <= i < self.gestures().len() && self.gestures()[i] == *g && self.actions()[i]
                    == *a,
    {
        let mut i: usize = 0;
        while i < self.bindings.len()
            invariant
                i <= self.bindings@.len(),
                forall|j: int| 0 <= j < i ==> self.bindings@[j].0 != *g,
            decreases self.bindings@.len() - i,
        {
            if self.bindings[i].0 == *g {
                proof {
                    assert(self.gestures()[i as int] == *g);
                    assert(self.actions()[i as int] == self.bindings@[i as int].1);
                }
                return Some(&self.bindings[i].1);
            }
            i = i + 1;
        }
        proof {
            if self.gestures().contains(*g) {
                let j = choose|j: int| 0 <= j < self.gestures().len() && self.gestures()[j] == *g;
                assert(self.bindings@[j].0 == *g);
            }
        }
        None
    }

    /// Each number of fingers that a bound gesture uses, once, in the order of first use.
    pub fn finger_counts(&self) -> (r: Vec<u8>)
        ensures
            r@.no_duplicates(),
            forall|n: u8|
                r@.contains(n) <==> self.gestures().map_values(|g: Gesture| fingers_of(g)).contains(
                    n,
                ),
    {
        let ghost counts = self.gestures().map_values(|g: Gesture| fingers_of(g));
        let mut r: Vec<u8> = Vec::new();
        let mut i: usize = 0;
        while i < self.bindings.len()
            invariant
                i <= self.bindings@.len(),
                counts == self.gestures().map_values(|g: Gesture| fingers_of(g)),
                counts.len() == self.bindings@.len(),
                r@.no_duplicates(),
                forall|n: u8| r@.contains(n) <==> counts.take(i as int).contains(n),
            decreases self.bindings@.len() - i,
        {
            let n = match self.bindings[i].0 {
                Gesture::Swipe { num_fingers, .. } => num_fingers,
            };
            proof {
                assert(counts[i as int] == n);
                assert(counts.take(i + 1) =~= counts.take(i as int).push(n));
            }
            let mut seen = false;
            let mut j: usize = 0;
            while j < r.len()
                invariant
                    j <= r@.len(),
                    seen == r@.take(j as int).contains(n),
                decreases r@.len() - j,
            {
                proof {
                    assert(r@.take(j + 1) =~= r@.take(j as int).push(r@[j as int]));
                    vstd::seq_lib::lemma_seq_contains_after_push(r@.take(j as int), r@[j as int], n);
                }
                if r[j] == n {
                    seen = true;
                }
                j = j + 1;
            }
            proof {
                assert(r@.take(j as int) =~= r@);
            }
            let ghost before = r@;
            if !seen {
                r.push(n);
            }
            proof {
                assert forall|m: u8| r@.contains(m) <==> counts.take(i + 1).contains(m) by {
                    vstd::seq_lib::lemma_seq_contains_after_push(counts.take(i as int), n, m);
                    if !seen {
                        vstd::seq_lib::lemma_seq_contains_after_push(before, n, m);
                    }
                }
                if !seen {
                    assert forall|a: int, b: int| 0 <= a < b < r@.len() implies r@[a] != r@[b] by {
                        if b == r@.len() - 1 {
                            assert(before.contains(before[a]) || a == b);
                        }
                    }
                }
            }
            i = i + 1;
        }
        proof {
            assert(counts.take(i as int) =~= counts);
        }
        r
    }
}

impl ConfigFile {
    /// The bindings of the file, if each names a gesture and no two name the same one.
    pub fn to_config(self) -> (r: Result<Config, ConfigError>)
        ensures
            match config_result(self.bindings@, self.bindings@.len() as int) {
                Ok(gs) => r matches Ok(c) && c.gestures() == gs && c.actions()
                    == self.bindings@.map_values(|b: Binding| binding_action(b)),
                Err(e) => r == Err::<Config, ConfigError>(e),
            },
    {
        let ghost all = self.bindings@;
        let mut rest = self.bindings;
        let mut v: Vec<(Gesture, Action)> = Vec::new();
        let mut k: usize = 0;
        let total = rest.len();
        proof {
            assert(gestures_of(v@) =~= Seq::<Gesture>::empty());
            assert(actions_of(v@) =~= all.take(0).map_values(|b: Binding| binding_action(b)));
        }
        while rest.len() > 0
            invariant
                all == self.bindings@,
                all.len() == total,
                k + rest@.len() == all.len(),
                rest@ == all.skip(k as int),
                config_result(all, k as int) == Ok::<Seq<Gesture>, ConfigError>(gestures_of(v@)),
                gestures_of(v@).no_duplicates(),
                actions_of(v@) == all.take(k as int).map_values(|b: Binding| binding_action(b)),
            decreases rest@.len(),
        {
            let b = rest.remove(0);
            proof {
                assert(b == all[k as int]);
                assert(rest@ =~= all.skip(k + 1));
            }
            match b.to_binding() {
                Err(e) => {
                    proof {
                        assert(config_result(all, k + 1) == Err::<Seq<Gesture>, ConfigError>(
                            ConfigError::BadGesture,
                        ));
                        lemma_config_error_stays(all, k + 1, all.len() as int);
                    }
                    return Err(e);
                },
                Ok((g, a)) => {
                    if contains_gesture(&v, g) {
                        proof {
                            assert(config_result(all, k + 1) == Err::<Seq<Gesture>, ConfigError>(
                                ConfigError::DuplicateBinding,
                            ));
                            lemma_config_error_stays(all, k + 1, all.len() as int);
                        }
                        return Err(ConfigError::DuplicateBinding);
                    }
                    let ghost before = v@;
                    v.push((g, a));
                    proof {
                        assert(gestures_of(v@) =~= gestures_of(before).push(g));
                        assert(actions_of(v@) =~= actions_of(before).push(a));
                        assert(all.take(k + 1) =~= all.take(k as int).push(all[k as int]));
                        assert(all.take(k + 1).map_values(|b: Binding| binding_action(b))
                            =~= all.take(k as int).map_values(|b: Binding| binding_action(b)).push(
                            binding_action(all[k as int]),
                        ));
                    }
                },
            }
            k = k + 1;
        }
        proof {
            assert(all.take(k as int) =~= all);
        }
        Ok(Config { bindings: v })
    }
}

proof fn lemma_config_error_stays(bs: Seq<Binding>, n: int, m: int)
    requires
        0 <= n <= m,
        config_result(bs, n) is Err,
    ensures
        config_result(bs, m) == config_result(bs, n),
    decreases m - n,
{
    if m > n {
        lemma_config_error_stays(bs, n, m - 1);
    }
}

} // verus!
