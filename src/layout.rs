//! Layers, layouts, and the random swaps that perturb a layout.

use vstd::prelude::*;
use crate::geometry::{KeyMap, Finger, Hand, Row, finger_of, hand_of, row_of, key_fingers, key_hands, key_rows};

verus! {

broadcast use vstd::seq_lib::to_multiset_update, vstd::seq_lib::to_multiset_contains,
    vstd::multiset::group_multiset_axioms;

/// The characters of one shift state, one per key position.
pub struct Layer(KeyMap<char>);

impl Clone for Layer {
    fn clone(&self) -> (r: Layer)
        ensures
            r.keys() == self.keys(),
    {
        Layer(self.0.clone())
    }
}

/// `s` with the entries at `i` and `j` exchanged.
pub open spec fn swapped<A>(s: Seq<A>, i: int, j: int) -> Seq<A> {
    s.update(i, s[j]).update(j, s[i])
}

/// Exchanging two entries keeps the multiset of a sequence.
pub proof fn lemma_swap_keeps_multiset(s: Seq<char>, i: int, j: int)
    requires
        0 <= i < s.len(),
        0 <= j < s.len(),
    ensures
        swapped(s, i, j).to_multiset() == s.to_multiset(),
{
    let s1 = s.update(i, s[j]);
    assert(s1.to_multiset() == s.to_multiset().insert(s[j]).remove(s[i]));
    assert(swapped(s, i, j).to_multiset() == s1.to_multiset().insert(s[i]).remove(s1[j]));
    if i == j {
        assert(swapped(s, i, j) =~= s);
    } else {
        let m = s.to_multiset();
        assert(s.contains(s[i]));
        assert(m.count(s[i]) > 0);
        assert(m.insert(s[j]).count(s[j]) > 0);
        assert(swapped(s, i, j).to_multiset() =~= m);
    }
}

/// The last position at which `s` holds the character of code `n`.
pub open spec fn last_index_of(s: Seq<char>, n: int) -> Option<int>
    decreases s.len(),
{
    if s.len() == 0 {
        None
    } else if s.last() as int == n {
        Some(s.len() - 1)
    } else {
        last_index_of(s.drop_last(), n)
    }
}

/// A found position lies in the sequence and holds the character sought.
pub proof fn lemma_last_index_of(s: Seq<char>, n: int)
    ensures
        last_index_of(s, n) matches Some(k) ==> 0 <= k < s.len() && s[k] as int == n,
        last_index_of(s, n) is None ==> forall|k: int| 0 <= k < s.len() ==> s[k] as int != n,
    decreases s.len(),
{
    if s.len() > 0 && s.last() as int != n {
        lemma_last_index_of(s.drop_last(), n);
        if last_index_of(s, n) is None {
            assert forall|k: int| 0 <= k < s.len() implies s[k] as int != n by {
                if k < s.len() - 1 {
                    assert(s[k] == s.drop_last()[k]);
                }
            }
        }
    }
}

/// The character table `m` after recording the keys `keys`: each character
/// below code 128 that occurs in `keys` maps to its last position there;
/// every other entry keeps its value in `m`.
pub open spec fn filled(keys: Seq<char>, m: Seq<Option<usize>>) -> Seq<Option<usize>> {
    Seq::new(
        128,
        |n: int|
            match last_index_of(keys, n) {
                Some(k) => Some(k as usize),
                None => m[n],
            },
    )
}

/// The character table of a layout with layers `lower` and `upper`: the
/// lower layer is recorded first, so the upper layer's position wins for a
/// character found in both.
pub open spec fn position_table(lower: Seq<char>, upper: Seq<char>) -> Seq<Option<usize>> {
    filled(upper, filled(lower, Seq::new(128, |n: int| None)))
}

/// The position that table `t` gives for character `c`: none for a
/// character of code 128 or more.
pub open spec fn lookup(t: Seq<Option<usize>>, c: char) -> Option<usize> {
    if (c as int) < 128 {
        t[c as int]
    } else {
        None
    }
}

/// The slot of character `c` in a character table: its code, if below 128.
fn table_index(c: char) -> (r: Option<usize>)
    ensures
        r is Some <==> (c as int) < 128,
        r matches Some(k) ==> k as int == c as int,
{
    if c <= '\x7f' {
        Some(c as usize)
    } else {
        None
    }
}

/// Relies on String::push: appends the character `c` to `s`.
#[verifier::external_body]
fn push_char(s: &mut String, c: char)
    ensures
        final(s)@ == old(s)@.push(c),
{
    s.push(c)
}

/// The keys `from .. to` of `k`, separated by single spaces.
pub open spec fn keys_text(k: Seq<char>, from: int, to: int) -> Seq<char>
    decreases to - from,
{
    if to - from <= 0 {
        Seq::empty()
    } else if to - from == 1 {
        seq![k[from]]
    } else {
        keys_text(k, from, to - 1) + seq![' ', k[to - 1]]
    }
}

/// One row of the diagram: keys `start .. split` for the left hand, a bar,
/// and keys `split .. end` for the right hand.
pub open spec fn row_text(k: Seq<char>, start: int, split: int, end: int) -> Seq<char> {
    keys_text(k, start, split) + seq![' ', '|', ' '] + keys_text(k, split, end)
}

/// The diagram of a layer: the three rows, split between the hands, and the
/// thumb key on a line of its own, indented by eight spaces.
pub open spec fn layer_text(k: Seq<char>) -> Seq<char> {
    row_text(k, 0, 5, 11) + seq!['\n'] + row_text(k, 11, 16, 22) + seq!['\n'] + row_text(
        k,
        22,
        27,
        32,
    ) + seq!['\n', ' ', ' ', ' ', ' ', ' ', ' ', ' ', ' ', k[32]]
}

/// Appends to `out` the keys `from .. to` of `k`, separated by spaces.
fn push_keys(out: &mut String, k: &[char; 33], from: usize, to: usize)
    requires
        from < to <= 33,
    ensures
        final(out)@ == old(out)@ + keys_text(k@, from as int, to as int),
{
    let ghost start = out@;
    push_char(out, k[from]);
    let mut i: usize = from + 1;
    assert(out@ =~= start + keys_text(k@, from as int, i as int));
    while i < to
        invariant
            from < i <= to <= 33,
            out@ == start + keys_text(k@, from as int, i as int),
        decreases to - i,
    {
        push_char(out, ' ');
        push_char(out, k[i]);
        i += 1;
        assert(out@ =~= start + keys_text(k@, from as int, i as int));
    }
}

/// Appends one row of the diagram to `out`.
fn push_row(out: &mut String, k: &[char; 33], start: usize, split: usize, end: usize)
    requires
        start < split < end <= 33,
    ensures
        final(out)@ == old(out)@ + row_text(k@, start as int, split as int, end as int),
{
    let ghost s0 = out@;
    push_keys(out, k, start, split);
    push_char(out, ' ');
    push_char(out, '|');
    push_char(out, ' ');
    push_keys(out, k, split, end);
    assert(out@ =~= s0 + row_text(k@, start as int, split as int, end as int));
}

impl Layer {
    /// The diagram of this layer.
    pub fn to_string(&self) -> (r: String)
        ensures
            r@ == layer_text(self.keys()),
    {
        let k = &self.0.0;
        let mut out = String::new();
        push_row(&mut out, k, 0, 5, 11);
        push_char(&mut out, '\n');
        push_row(&mut out, k, 11, 16, 22);
        push_char(&mut out, '\n');
        push_row(&mut out, k, 22, 27, 32);
        push_char(&mut out, '\n');
        let mut n: usize = 0;
        while n < 8
            invariant
                n <= 8,
                out@ == row_text(k@, 0, 5, 11) + seq!['\n'] + row_text(k@, 11, 16, 22) + seq!['\n']
                    + row_text(k@, 22, 27, 32) + seq!['\n'] + Seq::new(n as nat, |x: int| ' '),
            decreases 8 - n,
        {
            push_char(&mut out, ' ');
            n += 1;
            assert(out@ =~= row_text(k@, 0, 5, 11) + seq!['\n'] + row_text(k@, 11, 16, 22) + seq!['\n']
                + row_text(k@, 22, 27, 32) + seq!['\n'] + Seq::new(n as nat, |x: int| ' '));
        }
        push_char(&mut out, k[32]);
        assert(out@ =~= layer_text(k@));
        out
    }

    /// The character at each key position.
    pub closed spec fn keys(&self) -> Seq<char> {
        self.0.0@
    }

    fn fill_position_map(&self, map: &mut [Option<usize>; 128])
        ensures
            final(map)@ == filled(self.keys(), old(map)@),
    {
        let ghost m0 = map@;
        let mut i: usize = 0;
        assert(map@ =~= filled(self.keys().take(0), m0));
        while i < 33
            invariant
                i <= 33,
                map@ == filled(self.keys().take(i as int), m0),
            decreases 33 - i,
        {
            let c = self.0.0[i];
            let ghost s = self.keys().take(i as int + 1);
            assert(s.drop_last() =~= self.keys().take(i as int));
            assert(s.last() == c);
            if let Some(code) = table_index(c) {
                map[code] = Some(i);
            }
            assert(map@ =~= filled(s, m0));
            i += 1;
        }
        assert(self.keys().take(33) =~= self.keys());
    }

    fn swap(&mut self, i: usize, j: usize)
        requires
            i < 33,
            j < 33,
        ensures
            final(self).keys() == swapped(old(self).keys(), i as int, j as int),
    {
        let temp = self.0.0[i];
        self.0.0[i] = self.0.0[j];
        self.0.0[j] = temp;
    }
}

/// Two layers, unshifted and shifted, whose key positions are always
/// permuted together.
pub struct Layout(Layer, Layer);

impl Clone for Layout {
    fn clone(&self) -> (r: Layout)
        ensures
            r.lower() == self.lower(),
            r.upper() == self.upper(),
    {
        Layout(self.0.clone(), self.1.clone())
    }
}

/// A reverse index from character to key position, taken from a layout at
/// one moment.
pub struct LayoutPosMap([Option<usize>; 128]);

impl LayoutPosMap {
    /// Every recorded position is a key position.
    #[verifier::type_invariant]
    spec fn positions_in_grid(&self) -> bool {
        forall|n: int| 0 <= n < 128 ==> (#[trigger] self.0@[n] matches Some(k) ==> k < 33)
    }

    /// The position recorded for each character code below 128.
    pub closed spec fn entries(&self) -> Seq<Option<usize>> {
        self.0@
    }

    /// The position of character `kc`, if the layout held it when the map
    /// was taken; never one for a character of code 128 or more.
    pub fn get_key_position(&self, kc: char) -> (r: Option<usize>)
        ensures
            r == lookup(self.entries(), kc),
            (kc as int) >= 128 ==> r is None,
            r matches Some(p) ==> p < 33,
    {
        proof {
            use_type_invariant(self);
        }
        if let Some(code) = table_index(kc) {
            self.0[code]
        } else {
            None
        }
    }
}

/// A character with its key position and the finger, hand and row that
/// strike it.
pub struct KeyPress {
    pub kc: char,
    pub pos: usize,
    pub finger: Finger,
    pub hand: Hand,
    pub row: Row,
}

impl KeyPress {
    /// The key press of `kc` under `map`, if the map has a position for it.
    pub fn new(kc: char, map: &LayoutPosMap) -> (r: Option<KeyPress>)
        ensures
            r == (match lookup(map.entries(), kc) {
                Some(p) => Some(
                    KeyPress {
                        kc: kc,
                        pos: p,
                        finger: finger_of(p as int),
                        hand: hand_of(p as int),
                        row: row_of(p as int),
                    },
                ),
                None => None,
            }),
    {
        if let Some(pos) = map.get_key_position(kc) {
            let fingers = key_fingers();
            let hands = key_hands();
            let rows = key_rows();
            Some(KeyPress { kc: kc, pos: pos, finger: fingers.0[pos], hand: hands.0[pos], row: rows.0[pos] })
        } else {
            None
        }
    }
}

/// Every character below code 128 that a layout holds has a position in the
/// layout's reverse index, and the key there holds that character: in the
/// shifted layer if the character is found there, else in the unshifted one.
/// So the key press built from the index is classified by the finger, hand
/// and row of a key that types the character.
pub proof fn lemma_present_char_found(l: Layout, c: char)
    requires
        l.lower().contains(c) || l.upper().contains(c),
        (c as int) < 128,
    ensures
        lookup(position_table(l.lower(), l.upper()), c) matches Some(p) && p < 33 && (if l.upper().contains(c) {
            l.upper()[p as int] == c
        } else {
            l.lower()[p as int] == c
        }),
{
    let n = c as int;
    lemma_last_index_of(l.lower(), n);
    lemma_last_index_of(l.upper(), n);
    if l.upper().contains(c) {
        let k = choose|k: int| 0 <= k < l.upper().len() && l.upper()[k] == c;
        assert(l.upper()[k] as int == n);
    } else {
        let k = choose|k: int| 0 <= k < l.lower().len() && l.lower()[k] == c;
        assert(l.lower()[k] as int == n);
        assert forall|k: int| 0 <= k < l.upper().len() implies l.upper()[k] as int != n by {
            if l.upper()[k] as int == n {
                assert(l.upper()[k] == c);
            }
        }
    }
}

/// Which key positions random swaps may move.
pub struct LayoutShuffleMask(KeyMap<bool>);

/// Number of positions that the shuffle mask marks as eligible.
pub const LAYOUT_MASK_NUM_SWAPPABLE: usize = 31;

/// Whether key position `p` takes part in random swaps: every key but the
/// last of the top row and the thumb key.
pub open spec fn is_eligible(p: int) -> bool {
    0 <= p < 33 && p != 10 && p != 32
}

/// The eligible key position of rank `n` (counting eligible positions from
/// zero, in grid order).
pub open spec fn nth_eligible(n: int) -> int {
    if n < 10 {
        n
    } else {
        n + 1
    }
}

/// The ranks `0 .. LAYOUT_MASK_NUM_SWAPPABLE` name every eligible position
/// exactly once: the mask and its count of eligible positions agree.
pub proof fn lemma_eligible_ranks()
    ensures
        forall|n: int|
            0 <= n < LAYOUT_MASK_NUM_SWAPPABLE ==> #[trigger] is_eligible(nth_eligible(n)),
        forall|n: int, m: int|
            0 <= n < LAYOUT_MASK_NUM_SWAPPABLE && 0 <= m < LAYOUT_MASK_NUM_SWAPPABLE && n != m
                ==> #[trigger] nth_eligible(n) != #[trigger] nth_eligible(m),
        forall|p: int|
            #[trigger] is_eligible(p) ==> exists|n: int|
                0 <= n < LAYOUT_MASK_NUM_SWAPPABLE && #[trigger] nth_eligible(n) == p,
{
    assert forall|p: int| #[trigger] is_eligible(p) implies exists|n: int|
        0 <= n < LAYOUT_MASK_NUM_SWAPPABLE && #[trigger] nth_eligible(n) == p by {
        if p < 10 {
            assert(nth_eligible(p) == p);
        } else {
            assert(nth_eligible(p - 1) == p);
        }
    }
}

/// `p` is a permutation of the key positions that leaves every ineligible
/// position in place.
pub open spec fn is_shuffle_perm(p: Seq<int>) -> bool {
    &&& p.len() == 33
    &&& forall|k: int| 0 <= k < 33 ==> 0 <= #[trigger] p[k] < 33
    &&& forall|a: int, b: int| 0 <= a < 33 && 0 <= b < 33 && a != b ==> #[trigger] p[a] != #[trigger] p[b]
    &&& forall|k: int| 0 <= k < 33 && !is_eligible(k) ==> #[trigger] p[k] == k
}

/// `after` holds at each position `k` the key that `before` held at `p[k]`.
pub open spec fn permuted(before: Seq<char>, after: Seq<char>, p: Seq<int>) -> bool {
    &&& after.len() == 33
    &&& forall|k: int| 0 <= k < 33 ==> #[trigger] after[k] == before[p[k]]
}

/// `s` after exchanging the entries of each pair of `pairs`, in order.
pub open spec fn apply_swaps(s: Seq<char>, pairs: Seq<(int, int)>) -> Seq<char>
    decreases pairs.len(),
{
    if pairs.len() == 0 {
        s
    } else {
        swapped(apply_swaps(s, pairs.drop_last()), pairs.last().0, pairs.last().1)
    }
}

/// Each pair of `pairs` is two distinct eligible positions.
pub open spec fn eligible_swaps(pairs: Seq<(int, int)>) -> bool {
    forall|k: int|
        0 <= k < pairs.len() ==> #[trigger] pairs[k].0 != pairs[k].1 && is_eligible(pairs[k].0)
            && is_eligible(pairs[k].1)
}

/// The eligibility mask of the grid.
fn layout_mask() -> (r: LayoutShuffleMask)
    ensures
        forall|p: int| 0 <= p < 33 ==> r.0.0@[p] == is_eligible(p),
{
    let t = [
        true, true, true, true, true, true, true, true, true, true, false,
        true, true, true, true, true, true, true, true, true, true, true,
        true, true, true, true, true, true, true, true, true, true,
        false,
    ];
    LayoutShuffleMask(KeyMap(t))
}

/// The key positions of two distinct ranks drawn from two random numbers:
/// the first rank is `a` modulo the number of eligible positions, the second
/// is `b` modulo one less, moved past the first.
pub open spec fn draw_ranks(a: usize, b: usize) -> (int, int) {
    let i = a as int % LAYOUT_MASK_NUM_SWAPPABLE as int;
    let j0 = b as int % (LAYOUT_MASK_NUM_SWAPPABLE as int - 1);
    let j = if j0 >= i {
        j0 + 1
    } else {
        j0
    };
    (i, j)
}

/// Relies on rand::random: a number drawn from the thread-local generator;
/// nothing is known of its value.
#[verifier::external_body]
fn random_usize() -> (r: usize) {
    rand::random::<usize>()
}

impl Layout {
    /// The unshifted layer.
    pub closed spec fn lower(&self) -> Seq<char> {
        self.0.keys()
    }

    /// The shifted layer.
    pub closed spec fn upper(&self) -> Seq<char> {
        self.1.keys()
    }

    /// The layout with unshifted keys `lower` and shifted keys `upper`.
    pub(crate) fn from_keys(lower: [char; 33], upper: [char; 33]) -> (r: Layout)
        ensures
            r.lower() == lower@,
            r.upper() == upper@,
    {
        Layout(Layer(KeyMap(lower)), Layer(KeyMap(upper)))
    }

    /// The unshifted keys, by position.
    pub fn lower_keys(&self) -> (r: [char; 33])
        ensures
            r@ == self.lower(),
    {
        self.0.0.0
    }

    /// The shifted keys, by position.
    pub fn upper_keys(&self) -> (r: [char; 33])
        ensures
            r@ == self.upper(),
    {
        self.1.0.0
    }

    /// The diagram of the unshifted layer.
    pub fn to_string(&self) -> (r: String)
        ensures
            r@ == layer_text(self.lower()),
    {
        self.0.to_string()
    }

    /// Exchanges the keys at positions `i` and `j` in both layers.
    pub fn swap(&mut self, i: usize, j: usize)
        requires
            i < 33,
            j < 33,
        ensures
            final(self).lower() == swapped(old(self).lower(), i as int, j as int),
            final(self).upper() == swapped(old(self).upper(), i as int, j as int),
    {
        self.0.swap(i, j);
        self.1.swap(i, j);
    }

    /// The reverse index of this layout: each character below code 128 maps
    /// to its position, the shifted layer winning over the unshifted one.
    pub fn get_position_map(&self) -> (r: LayoutPosMap)
        ensures
            r.entries() == position_table(self.lower(), self.upper()),
    {
        let mut map: [Option<usize>; 128] = [None; 128];
        assert(map@ =~= Seq::new(128, |n: int| None::<usize>));
        self.0.fill_position_map(&mut map);
        self.1.fill_position_map(&mut map);
        assert forall|n: int| 0 <= n < 128 implies (#[trigger] map@[n] matches Some(k) ==> k < 33) by {
            lemma_last_index_of(self.lower(), n);
            lemma_last_index_of(self.upper(), n);
        }
        LayoutPosMap(map)
    }

    /// Applies `times` random swaps of two distinct eligible positions, the
    /// same swap to both layers each time: the result is the old layers with
    /// some `times` such swaps applied in order.
    pub fn shuffle(&mut self, times: usize)
        ensures
            exists|p: Seq<int>|
                is_shuffle_perm(p) && permuted(old(self).lower(), final(self).lower(), p)
                    && permuted(old(self).upper(), final(self).upper(), p),
            final(self).lower().to_multiset() == old(self).lower().to_multiset(),
            final(self).upper().to_multiset() == old(self).upper().to_multiset(),
            forall|k: int|
                0 <= k < 33 && !is_eligible(k) ==> final(self).lower()[k] == old(self).lower()[k]
                    && final(self).upper()[k] == old(self).upper()[k],
            times == 0 ==> final(self).lower() == old(self).lower() && final(self).upper()
                == old(self).upper(),
            exists|pairs: Seq<(int, int)>|
                pairs.len() == times && eligible_swaps(pairs) && final(self).lower()
                    == apply_swaps(old(self).lower(), pairs) && final(self).upper()
                    == apply_swaps(old(self).upper(), pairs),
    {
        let ghost lower0 = self.lower();
        let ghost upper0 = self.upper();
        let ghost mut p: Seq<int> = Seq::new(33, |k: int| k);
        let ghost mut pairs: Seq<(int, int)> = Seq::empty();
        let mut n: usize = 0;
        assert(permuted(lower0, self.lower(), p));
        assert(permuted(upper0, self.upper(), p));
        while n < times
            invariant
                n <= times,
                is_shuffle_perm(p),
                permuted(lower0, self.lower(), p),
                permuted(upper0, self.upper(), p),
                self.lower().to_multiset() == lower0.to_multiset(),
                self.upper().to_multiset() == upper0.to_multiset(),
                n == 0 ==> self.lower() == lower0 && self.upper() == upper0,
                pairs.len() == n,
                eligible_swaps(pairs),
                self.lower() == apply_swaps(lower0, pairs),
                self.upper() == apply_swaps(upper0, pairs),
            decreases times - n,
        {
            let (i, j) = Layout::shuffle_position();
            proof {
                lemma_swap_keeps_multiset(self.lower(), i as int, j as int);
                lemma_swap_keeps_multiset(self.upper(), i as int, j as int);
            }
            self.swap(i, j);
            proof {
                p = swapped(p, i as int, j as int);
                let prev = pairs;
                pairs = pairs.push((i as int, j as int));
                assert(pairs.drop_last() =~= prev);
            }
            n += 1;
        }
        assert(forall|k: int| 0 <= k < 33 && !is_eligible(k) ==> #[trigger] p[k] == k);
        assert(pairs.len() == times);
    }

    /// The grid position of the eligible key of rank `rank`, found by walking
    /// the mask and skipping ineligible positions.
    fn eligible_position(mask: &LayoutShuffleMask, rank: usize) -> (r: usize)
        requires
            rank < LAYOUT_MASK_NUM_SWAPPABLE,
            forall|p: int| 0 <= p < 33 ==> mask.0.0@[p] == is_eligible(p),
        ensures
            r as int == nth_eligible(rank as int),
    {
        let mut i: usize = rank;
        let mut k: usize = 0;
        while k <= i
            invariant
                forall|p: int| 0 <= p < 33 ==> mask.0.0@[p] == is_eligible(p),
                rank < 31,
                k <= i + 1,
                i == rank + (if k > 10 { 1int } else { 0int }),
                k > 10 ==> rank >= 10,
            decreases 33 - k,
        {
            assert(mask.0.0@[k as int] == is_eligible(k as int));
            if mask.0.0[k] == false {
                i += 1;
            }
            k += 1;
        }
        i
    }

    /// The pair of key positions that two random numbers `a` and `b` select:
    /// two distinct eligible positions, of the ranks `draw_ranks(a, b)`.
    pub fn positions_from_draws(a: usize, b: usize) -> (r: (usize, usize))
        ensures
            r.0 as int == nth_eligible(draw_ranks(a, b).0),
            r.1 as int == nth_eligible(draw_ranks(a, b).1),
            r.0 != r.1,
            is_eligible(r.0 as int),
            is_eligible(r.1 as int),
    {
        let mask = layout_mask();
        let mut i = a % LAYOUT_MASK_NUM_SWAPPABLE;
        let mut j = b % (LAYOUT_MASK_NUM_SWAPPABLE - 1);
        if j >= i {
            j = j + 1;
        }
        proof {
            lemma_eligible_ranks();
        }
        let pi = Layout::eligible_position(&mask, i);
        let pj = Layout::eligible_position(&mask, j);
        (pi, pj)
    }

    /// Two distinct eligible key positions, chosen at random.
    fn shuffle_position() -> (r: (usize, usize))
        ensures
            r.0 != r.1,
            is_eligible(r.0 as int),
            is_eligible(r.1 as int),
    {
        let a = random_usize();
        let b = random_usize();
        Layout::positions_from_draws(a, b)
    }
}

} // verus!
