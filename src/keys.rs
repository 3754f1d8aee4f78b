//! Key names in the configuration, and the planning of synthetic key
//! events: which keycode a key symbol has, which modifier keys to press
//! around it, and in what order.

use vstd::prelude::*;
use crate::device::{hex_u32, parse_hex};
use crate::text::{after_first, after_first_of, split_on, split_spec, split_words, views, words_spec};

verus! {

/// What `str::to_lowercase` makes of a string.
pub uninterp spec fn lower_of(s: Seq<char>) -> Seq<char>;

/// Relies on str::to_lowercase: the result depends on the characters alone,
/// and an empty string stays empty.
#[verifier::external_body]
fn lowercase(s: &str) -> (r: String)
    ensures
        r@ == lower_of(s@),
        s@.len() == 0 ==> r@.len() == 0,
{
    s.to_lowercase()
}

/// The modifier bit that a (lower case) modifier name stands for.
pub open spec fn modifier_bit(w: Seq<char>) -> u8 {
    if w == seq!['s', 'h', 'i', 'f', 't'] {
        1
    } else if w == seq!['a', 'l', 't'] {
        8
    } else if w == seq!['c', 't', 'r', 'l'] {
        4
    } else {
        0
    }
}

/// The modifier bits that a list of modifier names stands for.
pub open spec fn modifier_bits(ws: Seq<Seq<char>>) -> u8
    decreases ws.len(),
{
    if ws.len() == 0 {
        0
    } else {
        modifier_bits(ws.drop_last()) | modifier_bit(ws.last())
    }
}

/// A key name split into the key symbol's name and the modifier bits.
#[derive(Debug, PartialEq, Eq)]
pub struct KeySpec {
    pub name: String,
    pub modifiers: u8,
}

/// The parts of an already lower case key name `s`: what follows the last
/// `+`, and the bits of the modifier names before it.
pub open spec fn key_spec_of(s: Seq<char>) -> (Seq<char>, u8) {
    let parts = split_spec(s, '+');
    (parts.last(), modifier_bits(parts.drop_last()))
}

fn bit_of(w: &String) -> (r: u8)
    ensures
        r == modifier_bit(w@),
{
    let shift = String::from_str("shift");
    let alt = String::from_str("alt");
    let ctrl = String::from_str("ctrl");
    proof {
        reveal_strlit("shift");
        reveal_strlit("alt");
        reveal_strlit("ctrl");
        assert(shift@ =~= seq!['s', 'h', 'i', 'f', 't']);
        assert(alt@ =~= seq!['a', 'l', 't']);
        assert(ctrl@ =~= seq!['c', 't', 'r', 'l']);
    }
    if *w == shift {
        1
    } else if *w == alt {
        8
    } else if *w == ctrl {
        4
    } else {
        0
    }
}

/// Splits a lower case key name such as `shift+alt+tab` into the key
/// symbol's name and the modifier bits (shift 1, ctrl 4, alt 8); names of
/// other modifiers count for nothing.
pub fn key_spec_of_lowered(s: &str) -> (r: KeySpec)
    ensures
        r.name@ == key_spec_of(s@).0,
        r.modifiers == key_spec_of(s@).1,
{
    let mut parts = split_on(s, '+');
    let ghost ws = views(parts@);
    assert(ws.len() == parts@.len());
    let mut bits: u8 = 0;
    let mut i: usize = 0;
    let n = parts.len();
    assert(n >= 1) by {
        crate::text::lemma_split_nonempty(s@, '+', Seq::empty());
    }
    while i + 1 < n
        invariant
            n == parts@.len(),
            n >= 1,
            ws == views(parts@),
            i + 1 <= n,
            bits == modifier_bits(ws.subrange(0, i as int)),
        decreases n - i,
    {
        let b = bit_of(&parts[i]);
        assert(ws.subrange(0, i + 1).drop_last() =~= ws.subrange(0, i as int));
        bits = bits | b;
        i = i + 1;
    }
    assert(ws.subrange(0, i as int) =~= ws.drop_last());
    let name = parts.pop().unwrap();
    KeySpec { name, modifiers: bits }
}

/// Splits a key name such as `Shift+Alt+Tab`, in any case, into the lower
/// case name of the key symbol and the modifier bits.
pub fn parse_key_spec(s: &str) -> (r: KeySpec)
    ensures
        r.name@ == key_spec_of(lower_of(s@)).0,
        r.modifiers == key_spec_of(lower_of(s@)).1,
{
    let lower = lowercase(s);
    key_spec_of_lowered(lower.as_str())
}

/// The last position of `k` in `s`.
pub open spec fn last_pos(s: Seq<u32>, k: u32) -> Option<int>
    decreases s.len(),
{
    if s.len() == 0 {
        None
    } else if s.last() == k {
        Some(s.len() - 1)
    } else {
        last_pos(s.drop_last(), k)
    }
}

/// The display server's keyboard mapping: `per_keycode` key symbols for each
/// keycode from `min_keycode` on, one after the other.
#[derive(Debug)]
pub struct KeyboardMap {
    keysyms: Vec<u32>,
    per_keycode: u8,
    min_keycode: u8,
}

impl KeyboardMap {
    /// The key symbols, flat.
    pub closed spec fn keysyms_spec(&self) -> Seq<u32> {
        self.keysyms@
    }

    /// How many key symbols each keycode has.
    pub closed spec fn per_keycode_spec(&self) -> u8 {
        self.per_keycode
    }

    /// The first keycode.
    pub closed spec fn min_keycode_spec(&self) -> u8 {
        self.min_keycode
    }

    /// Every position names a keycode that fits in a byte.
    pub open spec fn wf(&self) -> bool {
        &&& self.per_keycode_spec() > 0
        &&& self.keysyms_spec().len() <= self.per_keycode_spec() * (256 - self.min_keycode_spec())
    }

    /// The keycode and shift level of a position in the mapping.
    pub open spec fn entry_at(&self, p: int) -> (u8, u8) {
        (
            (self.min_keycode_spec() + p / (self.per_keycode_spec() as int)) as u8,
            (p % (self.per_keycode_spec() as int)) as u8,
        )
    }

    /// The keycode and shift level of key symbol `k`: those of its last
    /// position, as a table filled in order would keep them.
    pub open spec fn lookup_spec(&self, k: u32) -> Option<(u8, u8)> {
        match last_pos(self.keysyms_spec(), k) {
            Some(p) => Some(self.entry_at(p)),
            None => None,
        }
    }

    /// The mapping of a keyboard; none where a keycode would not fit in a
    /// byte or no keycode has a symbol.
    pub fn new(keysyms: Vec<u32>, per_keycode: u8, min_keycode: u8) -> (r: Option<KeyboardMap>)
        ensures
            r.is_some() == (per_keycode > 0 && keysyms@.len() <= per_keycode * (256 - min_keycode)),
            r.is_some() ==> r.unwrap().wf() && r.unwrap().keysyms_spec() == keysyms@
                && r.unwrap().per_keycode_spec() == per_keycode && r.unwrap().min_keycode_spec() == min_keycode,
    {
        if per_keycode == 0 {
            return None;
        }
        assert((per_keycode as int) * (256 - min_keycode as int) <= 255 * 256) by (nonlinear_arith)
            requires
                per_keycode <= 255,
                min_keycode <= 255,
        ;
        let room: usize = (per_keycode as usize) * (256 - min_keycode as usize);
        if keysyms.len() > room {
            return None;
        }
        Some(KeyboardMap { keysyms, per_keycode, min_keycode })
    }

    /// The keycode and shift level of key symbol `k`, if the keyboard has it.
    pub fn lookup(&self, k: u32) -> (r: Option<(u8, u8)>)
        requires
            self.wf(),
        ensures
            r == self.lookup_spec(k),
    {
        let n = self.keysyms.len();
        let mut i: usize = n;
        assert(self.keysyms@.subrange(0, n as int) =~= self.keysyms@);
        while i > 0
            invariant
                self.wf(),
                n == self.keysyms@.len(),
                i <= n,
                last_pos(self.keysyms@, k) == last_pos(self.keysyms@.subrange(0, i as int), k),
            decreases i,
        {
            let ghost pre = self.keysyms@.subrange(0, i as int);
            assert(pre.drop_last() =~= self.keysyms@.subrange(0, i - 1));
            if self.keysyms[i - 1] == k {
                let p = i - 1;
                let per = self.per_keycode as usize;
                proof {
                    assert((p as int) < (per as int) * (256 - self.min_keycode as int));
                    assert((p as int) / (per as int) < 256 - self.min_keycode as int) by (nonlinear_arith)
                        requires
                            (p as int) < (per as int) * (256 - self.min_keycode as int),
                            per > 0,
                    ;
                    assert((p as int) % (per as int) < per as int) by (nonlinear_arith)
                        requires
                            per > 0,
                    ;
                }
                let code = self.min_keycode as usize + p / per;
                return Some((code as u8, (p % per) as u8));
            }
            i = i - 1;
        }
        assert(self.keysyms@.subrange(0, 0) =~= Seq::<u32>::empty());
        None
    }
}

/// The modifier keys of a modifier mapping of `per` keycodes for each of the
/// eight modifiers, read up to flat position `upto`: each non-zero keycode
/// with the bit of its modifier.
pub open spec fn mod_entries(keycodes: Seq<u8>, per: nat, upto: nat) -> Seq<(u8, u8)>
    decreases upto,
{
    if upto == 0 || per == 0 {
        Seq::empty()
    } else {
        let p = (upto - 1) as nat;
        let rest = mod_entries(keycodes, per, p);
        if keycodes[p as int] != 0 {
            rest.push((keycodes[p as int], (1u8 << ((p / per) as u8)) as u8))
        } else {
            rest
        }
    }
}

/// How many positions of a modifier mapping are read: whole groups only,
/// and no more than eight of them.
pub open spec fn mod_span(len: nat, per: nat) -> nat {
    if per == 0 {
        0
    } else if len / per >= 8 {
        8 * per
    } else {
        (len / per) * per
    }
}

/// The modifier keys of the display server's modifier mapping: for each of
/// the eight modifiers in turn, its non-zero keycodes, each with the
/// modifier's bit.
pub fn modifier_keycodes(keycodes: &Vec<u8>, per_modifier: u8) -> (r: Vec<(u8, u8)>)
    ensures
        r@ == mod_entries(keycodes@, per_modifier as nat, mod_span(keycodes@.len(), per_modifier as nat)),
{
    let mut out: Vec<(u8, u8)> = Vec::new();
    if per_modifier == 0 {
        return out;
    }
    let per = per_modifier as usize;
    let groups: usize = if keycodes.len() / per >= 8 { 8 } else { keycodes.len() / per };
    assert((groups as int) * (per as int) <= keycodes@.len()) by (nonlinear_arith)
        requires
            (groups as int) <= (keycodes@.len() as int) / (per as int),
            per > 0,
    ;
    let span: usize = groups * per;
    let mut p: usize = 0;
    while p < span
        invariant
            per == per_modifier as usize,
            per > 0,
            span == mod_span(keycodes@.len(), per as nat),
            span == groups * per,
            groups <= 8,
            span <= keycodes@.len(),
            p <= span,
            out@ == mod_entries(keycodes@, per as nat, p as nat),
        decreases span - p,
    {
        let kc = keycodes[p];
        if kc != 0 {
            let g = p / per;
            assert(g < 8) by (nonlinear_arith)
                requires
                    p < groups * per,
                    g == p / per,
                    groups <= 8,
                    per > 0,
            ;
            out.push((kc, 1u8 << (g as u8)));
        }
        p = p + 1;
    }
    out
}

/// One synthetic key event.
#[derive(Clone, Copy, Debug, PartialEq, Eq, Structural)]
pub enum FakeKey {
    Press(u8),
    Release(u8),
}

/// Whether keycode `kc` is down in the 256-bit key state `keys`.
pub open spec fn is_held(keys: Seq<u8>, kc: u8) -> bool {
    keys[(kc / 8) as int] & (1u8 << (kc % 8)) != 0
}

/// The modifier bits of the modifier keys in `mods` that are down.
pub open spec fn held_bits(mods: Seq<(u8, u8)>, keys: Seq<u8>) -> u8
    decreases mods.len(),
{
    if mods.len() == 0 {
        0
    } else {
        held_bits(mods.drop_last(), keys) | (if is_held(keys, mods.last().0) { mods.last().1 } else { 0 })
    }
}

/// The modifier keys to press for the bits `wanted`: the first key of each
/// wanted bit, in the order of `mods`.
pub open spec fn press_plan(mods: Seq<(u8, u8)>, wanted: u8) -> Seq<u8>
    decreases mods.len(),
{
    if mods.len() == 0 {
        Seq::empty()
    } else if mods[0].1 & wanted != 0 {
        seq![mods[0].0] + press_plan(mods.drop_first(), wanted & !mods[0].1)
    } else {
        press_plan(mods.drop_first(), wanted)
    }
}

/// The events that type keycode `kc` with the modifier bits `modifiers`:
/// presses of the wanted modifier keys not already down, a press and a
/// release of the key, and releases of the modifier keys pressed.
pub open spec fn key_plan(kc: u8, modifiers: u8, keys: Seq<u8>, mods: Seq<(u8, u8)>) -> Seq<FakeKey> {
    let p = press_plan(mods, modifiers & !held_bits(mods, keys));
    p.map_values(|c: u8| FakeKey::Press(c)) + seq![FakeKey::Press(kc), FakeKey::Release(kc)] + p.map_values(
        |c: u8| FakeKey::Release(c),
    )
}

fn held(keys: &[u8], kc: u8) -> (r: bool)
    requires
        keys@.len() == 32,
    ensures
        r == is_held(keys@, kc),
{
    let i = (kc / 8) as usize;
    let bit: u8 = 1u8 << (kc % 8);
    keys[i] & bit != 0
}

/// Plans the synthetic events that type keycode `keycode` with the modifier
/// bits `modifiers`, given the key state `keys` (32 bytes, a bit per
/// keycode) and the modifier keys `mods`.
pub fn plan_keypress(keycode: u8, modifiers: u8, keys: &[u8], mods: &Vec<(u8, u8)>) -> (r: Vec<FakeKey>)
    requires
        keys@.len() == 32,
    ensures
        r@ == key_plan(keycode, modifiers, keys@, mods@),
{
    let n = mods.len();
    let mut down: u8 = 0;
    let mut i: usize = 0;
    while i < n
        invariant
            n == mods@.len(),
            keys@.len() == 32,
            i <= n,
            down == held_bits(mods@.subrange(0, i as int), keys@),
        decreases n - i,
    {
        let (kc, bit) = mods[i];
        assert(mods@.subrange(0, i + 1).drop_last() =~= mods@.subrange(0, i as int));
        if held(keys, kc) {
            down = down | bit;
        } else {
            assert(down | 0u8 == down) by (bit_vector);
        }
        i = i + 1;
    }
    assert(mods@.subrange(0, n as int) =~= mods@);
    let wanted0: u8 = modifiers & !down;
    let mut wanted: u8 = wanted0;
    let mut pressed: Vec<u8> = Vec::new();
    let mut j: usize = 0;
    assert(mods@.subrange(0, n as int) =~= mods@);
    assert(pressed@ + press_plan(mods@.subrange(0, n as int), wanted) =~= press_plan(mods@, wanted0));
    while j < n
        invariant
            n == mods@.len(),
            j <= n,
            pressed@ + press_plan(mods@.subrange(j as int, n as int), wanted) == press_plan(mods@, wanted0),
        decreases n - j,
    {
        let (kc, bit) = mods[j];
        let ghost rest = mods@.subrange(j as int, n as int);
        assert(rest.drop_first() =~= mods@.subrange(j + 1, n as int));
        if bit & wanted != 0 {
            assert(pressed@.push(kc) + press_plan(mods@.subrange(j + 1, n as int), wanted & !bit)
                =~= pressed@ + (seq![kc] + press_plan(mods@.subrange(j + 1, n as int), wanted & !bit)));
            pressed.push(kc);
            wanted = wanted & !bit;
        }
        j = j + 1;
    }
    assert(pressed@ =~= press_plan(mods@, wanted0));
    let mut out: Vec<FakeKey> = Vec::new();
    let m = pressed.len();
    let mut k: usize = 0;
    while k < m
        invariant
            m == pressed@.len(),
            k <= m,
            out@ == pressed@.subrange(0, k as int).map_values(|c: u8| FakeKey::Press(c)),
        decreases m - k,
    {
        out.push(FakeKey::Press(pressed[k]));
        assert(pressed@.subrange(0, k + 1) =~= pressed@.subrange(0, k as int).push(pressed@[k as int]));
        assert(out@ =~= pressed@.subrange(0, k + 1).map_values(|c: u8| FakeKey::Press(c)));
        k = k + 1;
    }
    assert(pressed@.subrange(0, m as int) =~= pressed@);
    let ghost presses = out@;
    out.push(FakeKey::Press(keycode));
    out.push(FakeKey::Release(keycode));
    let ghost middle = out@;
    assert(middle =~= presses + seq![FakeKey::Press(keycode), FakeKey::Release(keycode)]);
    k = 0;
    while k < m
        invariant
            m == pressed@.len(),
            k <= m,
            out@ == middle + pressed@.subrange(0, k as int).map_values(|c: u8| FakeKey::Release(c)),
        decreases m - k,
    {
        out.push(FakeKey::Release(pressed[k]));
        assert(pressed@.subrange(0, k + 1) =~= pressed@.subrange(0, k as int).push(pressed@[k as int]));
        assert(out@ =~= middle + pressed@.subrange(0, k + 1).map_values(|c: u8| FakeKey::Release(c)));
        k = k + 1;
    }
    assert(out@ =~= key_plan(keycode, modifiers, keys@, mods@));
    out
}

/// The name that a keysym macro such as `XK_Return` gives: the text after
/// its first `_` (all of it where there is none), lower case.
pub open spec fn keysym_name(macro_name: Seq<char>) -> Seq<char> {
    lower_of(if macro_name.contains('_') { after_first(macro_name, '_') } else { macro_name })
}

/// The key symbol that a header line `#define XK_name 0x...` defines.
pub open spec fn keysym_define(line: Seq<char>) -> Option<(Seq<char>, u32)> {
    let w = words_spec(line);
    if w.len() >= 3 && w[0] == seq!['#', 'd', 'e', 'f', 'i', 'n', 'e'] && w[2].len() >= 2
        && w[2][0] == '0' && w[2][1] == 'x' && hex_u32(w[2].subrange(2, w[2].len() as int)).is_some() {
        Some((keysym_name(w[1]), hex_u32(w[2].subrange(2, w[2].len() as int)).unwrap()))
    } else {
        None
    }
}

/// Reads one line of a keysym header: the lower case name and the code of
/// the key symbol that a `#define` with a hex value gives; none for any
/// other line.
pub fn parse_keysym_define(line: &str) -> (r: Option<(String, u32)>)
    ensures
        r.is_some() == keysym_define(line@).is_some(),
        r.is_some() ==> r.unwrap().0@ == keysym_define(line@).unwrap().0 && r.unwrap().1
            == keysym_define(line@).unwrap().1,
{
    let words = split_words(line);
    let ghost w = views(words@);
    assert(w.len() == words@.len());
    if words.len() < 3 {
        return None;
    }
    assert(w[0] == words@[0]@ && w[1] == words@[1]@ && w[2] == words@[2]@);
    let define = String::from_str("#define");
    proof {
        reveal_strlit("#define");
        assert(define@ =~= seq!['#', 'd', 'e', 'f', 'i', 'n', 'e']);
    }
    if words[0] != define {
        return None;
    }
    let value = words[2].as_str();
    let vlen = value.unicode_len();
    if vlen < 2 || value.get_char(0) != '0' || value.get_char(1) != 'x' {
        return None;
    }
    let code = match parse_hex(value.substring_char(2, vlen)) {
        Some(c) => c,
        None => return None,
    };
    let tail = after_first_of(words[1].as_str(), '_');
    let name = lowercase(tail.as_str());
    Some((name, code))
}

} // verus!
