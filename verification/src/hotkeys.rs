//! Parsing of hotkey strings such as `"Ctrl+Shift+1"` into modifiers and a key.
use vstd::prelude::*;
use crate::text::{
    append_chars, chars_equal, chars_of, lowercase, uppercase, string_of,
    to_lowercase, to_uppercase, trim, trimmed, decimal, digit_char,
};
use vstd::hash_map::{HashMapWithView, StringHashMap};

verus! {

/// Why a hotkey could not be set up or an event could not be delivered.
#[derive(Debug, PartialEq, Eq)]
pub enum HotkeyError {
    InvalidHotkey(String),
    AlreadyRegistered(String),
    NotFound(String),
    RegistrationFailed(String),
    ReceiverDisconnected,
}

/// The main key of a hotkey.
#[derive(Debug, Clone, Copy, PartialEq, Eq)]
pub enum KeyCode {
    /// A letter key, `'A'` to `'Z'`.
    Letter(char),
    /// A digit key, `0` to `9`.
    Digit(u8),
    /// A function key, `F1` to `F20`.
    Function(u8),
    Space,
    Enter,
}

/// The modifier keys held with the main key.
#[derive(Debug, Clone, Copy, PartialEq, Eq)]
pub struct Modifiers {
    /// Command on macOS (the "super" key elsewhere).
    pub command: bool,
    pub control: bool,
    pub alt: bool,
    pub shift: bool,
}

/// A parsed hotkey: its modifiers and its main key.
#[derive(Debug, Clone, Copy, PartialEq, Eq)]
pub struct Hotkey {
    pub modifiers: Modifiers,
    pub code: KeyCode,
}

/// One modifier word.
#[derive(Debug, Clone, Copy, PartialEq, Eq)]
pub enum ModifierKey {
    Command,
    Control,
    Alt,
    Shift,
}

/// The pieces of `s` between occurrences of `sep`, as `str::split` yields them
/// (always at least one, possibly empty).
pub open spec fn split_on(s: Seq<char>, sep: char) -> Seq<Seq<char>>
    decreases s.len(),
{
    if s.len() == 0 {
        seq![Seq::empty()]
    } else {
        let init = split_on(s.drop_last(), sep);
        if s.last() == sep {
            init.push(Seq::empty())
        } else {
            init.update(init.len() - 1, init.last().push(s.last()))
        }
    }
}

pub proof fn lemma_split_nonempty(s: Seq<char>, sep: char)
    ensures
        split_on(s, sep).len() >= 1,
    decreases s.len(),
{
    if s.len() > 0 {
        lemma_split_nonempty(s.drop_last(), sep);
    }
}

/// The modifier a lowercased word names, if any.
pub open spec fn modifier_word(word: Seq<char>) -> Option<ModifierKey> {
    if word == "cmd"@ || word == "super"@ || word == "meta"@ {
        Some(ModifierKey::Command)
    } else if word == "ctrl"@ || word == "control"@ {
        Some(ModifierKey::Control)
    } else if word == "alt"@ || word == "option"@ {
        Some(ModifierKey::Alt)
    } else if word == "shift"@ {
        Some(ModifierKey::Shift)
    } else {
        None
    }
}

pub open spec fn is_ascii_upper(c: char) -> bool {
    'A' <= c <= 'Z'
}

pub open spec fn is_ascii_digit(c: char) -> bool {
    '0' <= c <= '9'
}

pub open spec fn digit_value(c: char) -> nat {
    (c as int - '0' as int) as nat
}

/// The number of a function key name after its `F`: `1` to `20`, written
/// without leading zeros.
pub open spec fn function_number(t: Seq<char>) -> Option<nat> {
    if t.len() == 1 && '1' <= t[0] <= '9' {
        Some(digit_value(t[0]))
    } else if t.len() == 2 && t[0] == '1' && is_ascii_digit(t[1]) {
        Some(10 + digit_value(t[1]))
    } else if t.len() == 2 && t[0] == '2' && t[1] == '0' {
        Some(20)
    } else {
        None
    }
}

/// The key an uppercased key name stands for: `A`-`Z`, `0`-`9`, `F1`-`F20`,
/// `SPACE`, and `RETURN` or `ENTER`.
pub open spec fn key_name(u: Seq<char>) -> Option<KeyCode> {
    if u.len() == 1 && is_ascii_upper(u[0]) {
        Some(KeyCode::Letter(u[0]))
    } else if u.len() == 1 && is_ascii_digit(u[0]) {
        Some(KeyCode::Digit(digit_value(u[0]) as u8))
    } else if u.len() >= 2 && u[0] == 'F' && function_number(u.skip(1)) is Some {
        Some(KeyCode::Function(function_number(u.skip(1))->0 as u8))
    } else if u == "SPACE"@ {
        Some(KeyCode::Space)
    } else if u == "RETURN"@ || u == "ENTER"@ {
        Some(KeyCode::Enter)
    } else {
        None
    }
}

/// The trimmed pieces of a hotkey string.
pub open spec fn hotkey_parts(s: Seq<char>) -> Seq<Seq<char>> {
    split_on(s, '+').map_values(|p: Seq<char>| trimmed(p))
}

/// The modifier the `i`-th piece names, if any.
pub open spec fn part_modifier(parts: Seq<Seq<char>>, i: int) -> Option<ModifierKey> {
    modifier_word(lowercase(parts[i]))
}

/// Whether one of the first `n` pieces names modifier `m`.
pub open spec fn names_modifier(parts: Seq<Seq<char>>, n: int, m: ModifierKey) -> bool {
    exists|i: int| 0 <= i < n && #[trigger] part_modifier(parts, i) == Some(m)
}

/// The modifiers named by the first `n` pieces.
pub open spec fn modifiers_of(parts: Seq<Seq<char>>, n: int) -> Modifiers {
    Modifiers {
        command: names_modifier(parts, n, ModifierKey::Command),
        control: names_modifier(parts, n, ModifierKey::Control),
        alt: names_modifier(parts, n, ModifierKey::Alt),
        shift: names_modifier(parts, n, ModifierKey::Shift),
    }
}

/// What parsing a hotkey string yields: all pieces but the last must be
/// modifiers (the first that is not is reported), and the last must name a
/// key (else it is reported).
pub open spec fn parse_outcome(s: Seq<char>, r: Result<Hotkey, HotkeyError>) -> bool {
    let parts = hotkey_parts(s);
    let n = parts.len() - 1;
    let all_modifiers = forall|i: int| 0 <= i < n ==> #[trigger] part_modifier(parts, i) is Some;
    match r {
        Ok(h) => all_modifiers && h.modifiers == modifiers_of(parts, n) && key_name(
            uppercase(parts[n]),
        ) == Some(h.code),
        Err(HotkeyError::InvalidHotkey(m)) => {
            ||| exists|i: int|
                0 <= i < n && #[trigger] part_modifier(parts, i) is None && (forall|k: int|
                    0 <= k < i ==> #[trigger] part_modifier(parts, k) is Some) && m@
                    == "unknown modifier: "@ + parts[i]
            ||| all_modifiers && key_name(uppercase(parts[n])) is None && m@
                == "unknown key: "@ + parts[n]
        },
        Err(_) => false,
    }
}

fn lit(s: &str) -> (v: Vec<char>)
    ensures
        v@ == s@,
{
    chars_of(s)
}

fn is_word(v: &Vec<char>, w: &str) -> (b: bool)
    ensures
        b == (v@ == w@),
{
    chars_equal(v, &lit(w))
}

/// The modifier a lowercased word names, if any.
pub fn parse_modifier_word(word: &Vec<char>) -> (r: Option<ModifierKey>)
    ensures
        r == modifier_word(word@),
{
    if is_word(word, "cmd") || is_word(word, "super") || is_word(word, "meta") {
        Some(ModifierKey::Command)
    } else if is_word(word, "ctrl") || is_word(word, "control") {
        Some(ModifierKey::Control)
    } else if is_word(word, "alt") || is_word(word, "option") {
        Some(ModifierKey::Alt)
    } else if is_word(word, "shift") {
        Some(ModifierKey::Shift)
    } else {
        None
    }
}

fn digit_of(c: char) -> (d: u8)
    requires
        is_ascii_digit(c),
    ensures
        d == digit_value(c),
{
    (c as u32 - '0' as u32) as u8
}

/// The key an uppercased key name stands for, if any.
pub fn parse_key_name(u: &Vec<char>) -> (r: Option<KeyCode>)
    ensures
        r == key_name(u@),
{
    if u.len() == 1 && 'A' <= u[0] && u[0] <= 'Z' {
        return Some(KeyCode::Letter(u[0]));
    }
    if u.len() == 1 && '0' <= u[0] && u[0] <= '9' {
        return Some(KeyCode::Digit(digit_of(u[0])));
    }
    if u.len() >= 2 && u[0] == 'F' {
        let ghost t = u@.skip(1);
        assert(t.len() == u.len() - 1);
        assert(forall|k: int| 0 <= k < t.len() ==> t[k] == u@[k + 1]);
        if u.len() == 2 && '1' <= u[1] && u[1] <= '9' {
            return Some(KeyCode::Function(digit_of(u[1])));
        }
        if u.len() == 3 && u[1] == '1' && '0' <= u[2] && u[2] <= '9' {
            return Some(KeyCode::Function(10 + digit_of(u[2])));
        }
        if u.len() == 3 && u[1] == '2' && u[2] == '0' {
            return Some(KeyCode::Function(20));
        }
    }
    if is_word(u, "SPACE") {
        return Some(KeyCode::Space);
    }
    if is_word(u, "RETURN") || is_word(u, "ENTER") {
        return Some(KeyCode::Enter);
    }
    proof {
        reveal_strlit("SPACE");
        reveal_strlit("RETURN");
        reveal_strlit("ENTER");
    }
    None
}

/// Splits `s` at every `sep`, as `str::split` does.
pub fn split_chars(s: &Vec<char>, sep: char) -> (r: Vec<Vec<char>>)
    ensures
        r@.map_values(|p: Vec<char>| p@) == split_on(s@, sep),
{
    let mut pieces: Vec<Vec<char>> = Vec::new();
    let mut cur: Vec<char> = Vec::new();
    let mut i: usize = 0;
    assert(s@.take(0) =~= Seq::<char>::empty());
    assert(pieces@.map_values(|p: Vec<char>| p@).push(cur@) =~= split_on(s@.take(0), sep));
    while i < s.len()
        invariant
            i <= s.len(),
            pieces@.map_values(|p: Vec<char>| p@).push(cur@) == split_on(s@.take(i as int), sep),
        decreases s.len() - i,
    {
        let ghost before = pieces@.map_values(|p: Vec<char>| p@).push(cur@);
        assert(s@.take(i + 1).drop_last() =~= s@.take(i as int));
        if s[i] == sep {
            let done = cur;
            pieces.push(done);
            cur = Vec::new();
            assert(pieces@.map_values(|p: Vec<char>| p@).push(cur@) =~= before.push(Seq::empty()));
        } else {
            cur.push(s[i]);
            assert(pieces@.map_values(|p: Vec<char>| p@).push(cur@) =~= before.update(
                before.len() - 1,
                before.last().push(s@[i as int]),
            ));
        }
        i = i + 1;
    }
    assert(s@.take(s.len() as int) =~= s@);
    let last = cur;
    pieces.push(last);
    pieces
}

proof fn lemma_names_modifier_step(parts: Seq<Seq<char>>, i: int, m: ModifierKey)
    requires
        0 <= i,
    ensures
        names_modifier(parts, i + 1, m) == (names_modifier(parts, i, m) || part_modifier(parts, i)
            == Some(m)),
{
    if names_modifier(parts, i + 1, m) && part_modifier(parts, i) != Some(m) {
        let k = choose|k: int| 0 <= k < i + 1 && #[trigger] part_modifier(parts, k) == Some(m);
        assert(k < i);
    }
}

fn concat_message(prefix: &str, tail: &String) -> (r: String)
    ensures
        r@ == prefix@ + tail@,
{
    let mut v = lit(prefix);
    append_chars(&mut v, &chars_of(tail.as_str()));
    string_of(&v)
}

/// Parses a hotkey string such as `"Ctrl+Shift+1"`: `+`-separated pieces,
/// each trimmed, all but the last naming modifiers (case-insensitively) and
/// the last naming the key.
pub fn parse_hotkey(s: &str) -> (r: Result<Hotkey, HotkeyError>)
    ensures
        parse_outcome(s@, r),
{
    let raw = split_chars(&chars_of(s), '+');
    let ghost parts = hotkey_parts(s@);
    proof {
        lemma_split_nonempty(s@, '+');
    }
    let count = raw.len();
    let n = count - 1;
    let mut mods = Modifiers { command: false, control: false, alt: false, shift: false };
    let mut i: usize = 0;
    while i < n
        invariant
            n == count - 1,
            count == raw.len(),
            count == parts.len(),
            i <= n,
            parts == hotkey_parts(s@),
            forall|k: int| 0 <= k < parts.len() ==> #[trigger] parts[k] == trimmed(raw@[k]@),
            forall|k: int| 0 <= k < i ==> #[trigger] part_modifier(parts, k) is Some,
            mods == modifiers_of(parts, i as int),
        decreases n - i,
    {
        let part = trim(string_of(&raw[i]).as_str());
        let lower = to_lowercase(part.as_str());
        let kind = parse_modifier_word(&chars_of(lower.as_str()));
        proof {
            lemma_names_modifier_step(parts, i as int, ModifierKey::Command);
            lemma_names_modifier_step(parts, i as int, ModifierKey::Control);
            lemma_names_modifier_step(parts, i as int, ModifierKey::Alt);
            lemma_names_modifier_step(parts, i as int, ModifierKey::Shift);
        }
        match kind {
            Some(ModifierKey::Command) => {
                mods.command = true;
            },
            Some(ModifierKey::Control) => {
                mods.control = true;
            },
            Some(ModifierKey::Alt) => {
                mods.alt = true;
            },
            Some(ModifierKey::Shift) => {
                mods.shift = true;
            },
            None => {
                let m = concat_message("unknown modifier: ", &part);
                assert(part_modifier(parts, i as int) is None);
                return Err(HotkeyError::InvalidHotkey(m));
            },
        }
        i = i + 1;
    }
    let key_part = trim(string_of(&raw[n]).as_str());
    let upper = to_uppercase(key_part.as_str());
    match parse_key_name(&chars_of(upper.as_str())) {
        Some(code) => Ok(Hotkey { modifiers: mods, code }),
        None => Err(HotkeyError::InvalidHotkey(concat_message("unknown key: ", &key_part))),
    }
}

/// What registering `s` asks for: nothing for an empty string (a disabled
/// hotkey), else the parsed hotkey.
pub fn hotkey_to_register(s: &str) -> (r: Result<Option<Hotkey>, HotkeyError>)
    ensures
        s@.len() == 0 ==> r == Ok::<Option<Hotkey>, HotkeyError>(None),
        s@.len() > 0 ==> match r {
            Ok(Some(h)) => parse_outcome(s@, Ok(h)),
            Ok(None) => false,
            Err(e) => parse_outcome(s@, Err(e)),
        },
{
    if s.is_empty() {
        return Ok(None);
    }
    match parse_hotkey(s) {
        Ok(h) => Ok(Some(h)),
        Err(e) => Err(e),
    }
}

/// The hotkeys registered so far: from each caller-chosen name to the id of
/// its hotkey, and from each hotkey id to the name it was registered under.
pub struct HotkeyBindings {
    by_name: StringHashMap<u32>,
    by_id: HashMapWithView<u32, String>,
    names: Vec<String>,
}

pub open spec fn name_views(v: Seq<String>) -> Seq<Seq<char>> {
    v.map_values(|s: String| s@)
}

/// The two maps are inverse to each other: each name's id leads back to the
/// name, and each id's name leads back to the id.
pub open spec fn inverse_maps(names: Map<Seq<char>, u32>, ids: Map<u32, Seq<char>>) -> bool {
    &&& forall|k: Seq<char>| #[trigger] names.contains_key(k) ==> ids.contains_key(names[k]) && ids[names[k]] == k
    &&& forall|i: u32| #[trigger] ids.contains_key(i) ==> names.contains_key(ids[i]) && names[ids[i]] == i
}

/// The names after binding `name` to `id`: `name` maps to `id`, and a name
/// that held `id` before loses it.
pub open spec fn names_after_bind(names: Map<Seq<char>, u32>, name: Seq<char>, id: u32) -> Map<
    Seq<char>,
    u32,
> {
    Map::new(
        |k: Seq<char>| k == name || (names.contains_key(k) && names[k] != id),
        |k: Seq<char>| if k == name { id } else { names[k] },
    )
}

/// The ids after binding `name` to `id`: `id` maps to `name`, and the id
/// that `name` held before is released.
pub open spec fn ids_after_bind(ids: Map<u32, Seq<char>>, name: Seq<char>, id: u32) -> Map<
    u32,
    Seq<char>,
> {
    Map::new(
        |i: u32| i == id || (ids.contains_key(i) && ids[i] != name),
        |i: u32| if i == id { name } else { ids[i] },
    )
}

impl HotkeyBindings {
    /// From registered name to hotkey id.
    pub closed spec fn names_map(self) -> Map<Seq<char>, u32> {
        self.by_name@
    }

    /// From hotkey id to the name it was registered under.
    pub closed spec fn ids_map(self) -> Map<u32, Seq<char>> {
        Map::new(|k: u32| self.by_id@.contains_key(k), |k: u32| self.by_id@[k]@)
    }

    /// Every registered name is listed once, and the two maps are inverse.
    pub closed spec fn wf(self) -> bool {
        &&& name_views(self.names@).no_duplicates()
        &&& name_views(self.names@).to_set() == self.by_name@.dom()
        &&& inverse_maps(self.names_map(), self.ids_map())
    }

    pub fn new() -> (b: Self)
        ensures
            b.wf(),
            b.names_map() == Map::<Seq<char>, u32>::empty(),
            b.ids_map() == Map::<u32, Seq<char>>::empty(),
    {
        broadcast use vstd::std_specs::hash::group_hash_axioms;
        let b = HotkeyBindings {
            by_name: StringHashMap::new(),
            by_id: HashMapWithView::new(),
            names: Vec::new(),
        };
        assert(b.ids_map() =~= Map::<u32, Seq<char>>::empty());
        assert(name_views(b.names@).to_set() =~= b.by_name@.dom());
        b
    }

    fn position(&self, name: &str) -> (r: Option<usize>)
        ensures
            match r {
                Some(i) => i < self.names@.len() && self.names@[i as int]@ == name@,
                None => !name_views(self.names@).contains(name@),
            },
    {
        let mut i: usize = 0;
        while i < self.names.len()
            invariant
                i <= self.names.len(),
                forall|k: int| 0 <= k < i ==> self.names@[k]@ != name@,
            decreases self.names.len() - i,
        {
            if chars_equal(&chars_of(self.names[i].as_str()), &chars_of(name)) {
                return Some(i);
            }
            i = i + 1;
        }
        proof {
            if name_views(self.names@).contains(name@) {
                let k = choose|k: int|
                    0 <= k < name_views(self.names@).len() && name_views(self.names@)[k] == name@;
                assert(self.names@[k]@ == name@);
            }
        }
        None
    }

    /// Records that the hotkey with id `hotkey_id` was registered as `name`.
    /// A hotkey that `name` held before is released: its id is returned when
    /// it differs from `hotkey_id`, so that it can be unregistered too.
    pub fn bind(&mut self, name: &str, hotkey_id: u32) -> (released: Option<u32>)
        requires
            old(self).wf(),
        ensures
            final(self).wf(),
            final(self).names_map() == names_after_bind(old(self).names_map(), name@, hotkey_id),
            final(self).ids_map() == ids_after_bind(old(self).ids_map(), name@, hotkey_id),
            released == (if old(self).names_map().contains_key(name@) && old(self).names_map()[name@]
                != hotkey_id {
                Some(old(self).names_map()[name@])
            } else {
                None
            }),
    {
        let ghost n0 = self.names_map();
        let ghost i0 = self.ids_map();
        let previous = self.unbind(name);
        let ghost n1 = self.names_map();
        let ghost i1 = self.ids_map();
        let holder = self.lookup(hotkey_id);
        match holder {
            Some(other) => {
                let _ = self.unbind(other.as_str());
            },
            None => {},
        }
        let ghost n2 = self.names_map();
        let ghost i2 = self.ids_map();
        assert(!n2.contains_key(name@));
        assert(!i2.contains_key(hotkey_id));
        let ghost before = name_views(self.names@);
        let ghost ids_before = self.ids_map();
        self.by_id.insert(hotkey_id, name.to_string());
        assert(self.ids_map() =~= ids_before.insert(hotkey_id, name@));
        self.by_name.insert(name.to_string(), hotkey_id);
        self.names.push(name.to_string());
        proof {
            assert(!before.to_set().contains(name@));
            assert(!before.contains(name@));
            assert(name_views(self.names@) =~= before.push(name@));
            assert(before.push(name@).no_duplicates()) by {
                assert forall|a: int, b: int|
                    0 <= a < b < before.push(name@).len() implies before.push(name@)[a]
                    != before.push(name@)[b] by {
                    if b == before.len() {
                        assert(before[a] == before.push(name@)[a]);
                    }
                }
            }
            assert forall|k: Seq<char>|
                #[trigger] name_views(self.names@).to_set().contains(k)
                    == self.by_name@.dom().contains(k) by {
                if k == name@ {
                    assert(before.push(name@)[before.len() as int] == k);
                } else if before.push(name@).contains(k) {
                    let j = choose|j: int| 0 <= j < before.push(name@).len() && before.push(name@)[j] == k;
                    assert(before[j] == k);
                } else if before.contains(k) {
                    let j = choose|j: int| 0 <= j < before.len() && before[j] == k;
                    assert(before.push(name@)[j] == k);
                }
            }
            assert(name_views(self.names@).to_set() =~= self.by_name@.dom());
            assert(self.names_map() =~= names_after_bind(n0, name@, hotkey_id)) by {
                assert forall|k: Seq<char>| k != name@ && n0.contains_key(k) implies (n0[k] != hotkey_id
                    <==> n2.contains_key(k)) by {
                    if n0[k] == hotkey_id {
                        assert(i0[hotkey_id] == k);
                        assert(i1.contains_key(hotkey_id));
                    }
                }
            }
            assert(self.ids_map() =~= ids_after_bind(i0, name@, hotkey_id)) by {
                assert forall|i: u32| i != hotkey_id && i0.contains_key(i) implies (i0[i] != name@
                    <==> i2.contains_key(i)) by {
                    if i0[i] != name@ {
                        assert(n0[i0[i]] == i);
                        assert(n1.contains_key(i0[i]));
                    }
                }
            }
        }
        match previous {
            Some(p) => {
                if p != hotkey_id {
                    Some(p)
                } else {
                    None
                }
            },
            None => None,
        }
    }

    /// Forgets the hotkey registered as `name`, returning its id; `None` when
    /// no hotkey is registered under that name.
    pub fn unbind(&mut self, name: &str) -> (r: Option<u32>)
        requires
            old(self).wf(),
        ensures
            final(self).wf(),
            match r {
                Some(id) => old(self).names_map().contains_key(name@) && id == old(
                    self,
                ).names_map()[name@] && final(self).names_map() == old(self).names_map().remove(
                    name@,
                ) && final(self).ids_map() == old(self).ids_map().remove(id),
                None => !old(self).names_map().contains_key(name@) && final(self).names_map() == old(
                    self,
                ).names_map() && final(self).ids_map() == old(self).ids_map(),
            },
    {
        let id = match self.by_name.get(name) {
            Some(id) => *id,
            None => {
                return None;
            },
        };
        let ghost ids_before = self.ids_map();
        let ghost names_before = self.by_name@;
        self.by_name.remove(name);
        let _ = self.by_id.remove(&id);
        assert(self.ids_map() =~= ids_before.remove(id));
        proof {
            assert(names_before.contains_key(name@) && names_before[name@] == id);
            assert(ids_before[id] == name@);
            assert forall|k: Seq<char>| #[trigger] self.names_map().contains_key(k) implies self.ids_map().contains_key(
                self.names_map()[k],
            ) && self.ids_map()[self.names_map()[k]] == k by {
                assert(names_before.contains_key(k));
                assert(ids_before[names_before[k]] == k);
            }
            assert forall|i: u32| #[trigger] self.ids_map().contains_key(i) implies self.names_map().contains_key(
                self.ids_map()[i],
            ) && self.names_map()[self.ids_map()[i]] == i by {
                assert(ids_before.contains_key(i));
                assert(names_before[ids_before[i]] == i);
            }
        }
        let listed = self.position(name);
        match listed {
            Some(i) => {
                let ghost before = name_views(self.names@);
                self.names.remove(i);
                proof {
                    assert(name_views(self.names@) =~= before.remove(i as int));
                    assert(before.remove(i as int).no_duplicates()) by {
                        assert forall|a: int, b: int|
                            0 <= a < b < before.remove(i as int).len() implies before.remove(
                            i as int,
                        )[a] != before.remove(i as int)[b] by {
                            let aa = if a < i {
                                a
                            } else {
                                a + 1
                            };
                            let bb = if b < i {
                                b
                            } else {
                                b + 1
                            };
                            assert(before.remove(i as int)[a] == before[aa]);
                            assert(before.remove(i as int)[b] == before[bb]);
                        }
                    }
                    assert forall|k: Seq<char>|
                        #[trigger] name_views(self.names@).to_set().contains(k)
                            == self.by_name@.dom().contains(k) by {
                        if name_views(self.names@).to_set().contains(k) {
                            let j = choose|j: int|
                                0 <= j < before.remove(i as int).len() && before.remove(
                                    i as int,
                                )[j] == k;
                            let jj = if j < i {
                                j
                            } else {
                                j + 1
                            };
                            assert(before[jj] == k);
                            assert(before.contains(k));
                            assert(jj != i);
                            assert(before[i as int] == name@);
                            assert(before.no_duplicates());
                            assert(k != name@);
                            assert(before.to_set().contains(k));
                            assert(names_before.dom().contains(k));
                        }
                        if self.by_name@.dom().contains(k) {
                            assert(names_before.dom().contains(k) && k != name@);
                            assert(before.to_set().contains(k));
                            assert(before[i as int] == name@);
                            let j = choose|j: int| 0 <= j < before.len() && before[j] == k;
                            assert(j != i);
                            let jj = if j < i {
                                j
                            } else {
                                j - 1
                            };
                            assert(before.remove(i as int)[jj] == k);
                        }
                    }
                    assert(name_views(self.names@).to_set() =~= self.by_name@.dom());
                }
            },
            None => {
                proof {
                    assert(name_views(self.names@).to_set().contains(name@));
                }
            },
        }
        Some(id)
    }

    /// Forgets every binding, returning the ids that were bound so that their
    /// hotkeys can be unregistered too.
    pub fn unbind_all(&mut self) -> (released: Vec<u32>)
        requires
            old(self).wf(),
        ensures
            final(self).wf(),
            final(self).names_map() == Map::<Seq<char>, u32>::empty(),
            final(self).ids_map() == Map::<u32, Seq<char>>::empty(),
            released@.to_set() == old(self).ids_map().dom(),
    {
        let names = self.names();
        let ghost nv = name_views(names@);
        let ghost ids0 = self.ids_map();
        let mut released: Vec<u32> = Vec::new();
        let mut i: usize = 0;
        assert(nv.skip(0) =~= nv);
        while i < names.len()
            invariant
                self.wf(),
                nv == name_views(names@),
                nv.no_duplicates(),
                0 <= i <= names.len(),
                self.names_map().dom() == nv.skip(i as int).to_set(),
                forall|id: u32|
                    #[trigger] ids0.contains_key(id) <==> (self.ids_map().contains_key(id)
                        || released@.contains(id)),
            decreases names.len() - i,
        {
            let ghost rel_before = released@;
            let ghost key = nv[i as int];
            assert(names[i as int]@ == key);
            assert(nv.skip(i as int)[0] == key);
            assert(nv.skip(i as int).to_set().contains(key));
            let r = self.unbind(names[i].as_str());
            match r {
                Some(id) => {
                    released.push(id);
                    proof {
                        assert forall|x: u32| #[trigger] ids0.contains_key(x) <==> (
                        self.ids_map().contains_key(x) || released@.contains(x)) by {
                            if rel_before.contains(x) {
                                let j = choose|j: int| 0 <= j < rel_before.len() && rel_before[j] == x;
                                assert(released@[j] == x);
                            }
                            if released@.contains(x) && x != id {
                                let j = choose|j: int| 0 <= j < released@.len() && released@[j] == x;
                                assert(j < rel_before.len());
                                assert(rel_before[j] == x);
                            }
                            if x == id {
                                assert(released@[released@.len() - 1] == x);
                            }
                        }
                    }
                },
                None => {},
            }
            proof {
                assert forall|k: Seq<char>| #[trigger] nv.skip(i + 1).to_set().contains(k) <==> (
                nv.skip(i as int).to_set().contains(k) && k != key) by {
                    let rest = nv.skip(i + 1);
                    let here = nv.skip(i as int);
                    if rest.to_set().contains(k) {
                        let j = choose|j: int| 0 <= j < rest.len() && #[trigger] rest[j] == k;
                        assert(nv.skip(i as int)[j + 1] == k);
                        assert(nv[i + 1 + j] == k);
                        assert(nv[i as int] == key);
                    }
                    if here.to_set().contains(k) && k != key {
                        let j = choose|j: int| 0 <= j < here.len() && #[trigger] here[j] == k;
                        assert(j != 0);
                        assert(nv.skip(i + 1)[j - 1] == k);
                    }
                }
                assert(self.names_map().dom() =~= nv.skip(i + 1).to_set());
            }
            i = i + 1;
        }
        proof {
            assert(nv.skip(i as int) =~= Seq::<Seq<char>>::empty());
            assert(self.names_map().dom() =~= Set::<Seq<char>>::empty());
            lemma_no_names_no_ids(self.names_map(), self.ids_map());
            assert(self.names_map() =~= Map::<Seq<char>, u32>::empty());
            assert(self.ids_map() =~= Map::<u32, Seq<char>>::empty());
            assert(released@.to_set() =~= ids0.dom());
        }
        released
    }

    /// The name the hotkey with id `hotkey_id` was registered under, if any.
    pub fn lookup(&self, hotkey_id: u32) -> (r: Option<String>)
        ensures
            match r {
                Some(name) => self.ids_map().contains_key(hotkey_id) && name@ == self.ids_map()[hotkey_id],
                None => !self.ids_map().contains_key(hotkey_id),
            },
    {
        match self.by_id.get(&hotkey_id) {
            Some(name) => Some(name.clone()),
            None => None,
        }
    }

    /// The names hotkeys are registered under, each once.
    pub fn names(&self) -> (r: Vec<String>)
        requires
            self.wf(),
        ensures
            name_views(r@).no_duplicates(),
            name_views(r@).to_set() == self.names_map().dom(),
    {
        let mut out: Vec<String> = Vec::new();
        let mut i: usize = 0;
        while i < self.names.len()
            invariant
                i <= self.names.len(),
                name_views(out@) == name_views(self.names@).take(i as int),
            decreases self.names.len() - i,
        {
            let ghost prev = name_views(out@);
            let item = self.names[i].clone();
            assert(item@ == name_views(self.names@)[i as int]);
            out.push(item);
            assert(name_views(out@) =~= prev.push(item@));
            assert(name_views(out@) =~= name_views(self.names@).take(i as int + 1));
            i = i + 1;
        }
        assert(name_views(self.names@).take(self.names.len() as int) =~= name_views(self.names@));
        out
    }
}

/// A hotkey bound under a name is found again by its id, and the name maps
/// to that id.
pub proof fn lemma_bind_then_lookup(
    names: Map<Seq<char>, u32>,
    ids: Map<u32, Seq<char>>,
    name: Seq<char>,
    hotkey_id: u32,
)
    ensures
        names_after_bind(names, name, hotkey_id).contains_key(name),
        names_after_bind(names, name, hotkey_id)[name] == hotkey_id,
        ids_after_bind(ids, name, hotkey_id).contains_key(hotkey_id),
        ids_after_bind(ids, name, hotkey_id)[hotkey_id] == name,
{
}

/// Binding a new name to a free id and then unbinding the name gives both
/// maps back as they were.
pub proof fn lemma_bind_unbind_restores(
    names: Map<Seq<char>, u32>,
    ids: Map<u32, Seq<char>>,
    name: Seq<char>,
    hotkey_id: u32,
)
    requires
        inverse_maps(names, ids),
        !names.contains_key(name),
        !ids.contains_key(hotkey_id),
    ensures
        names_after_bind(names, name, hotkey_id).remove(name) == names,
        ids_after_bind(ids, name, hotkey_id).remove(hotkey_id) == ids,
{
    assert(names_after_bind(names, name, hotkey_id).remove(name) =~= names);
    assert(ids_after_bind(ids, name, hotkey_id).remove(hotkey_id) =~= ids);
}

/// Once every name is unbound no hotkey id is left either: unregistering all
/// names unregisters every hotkey.
pub proof fn lemma_no_names_no_ids(names: Map<Seq<char>, u32>, ids: Map<u32, Seq<char>>)
    requires
        inverse_maps(names, ids),
        names.dom() == Set::<Seq<char>>::empty(),
    ensures
        ids.dom() == Set::<u32>::empty(),
{
    assert forall|i: u32| !ids.contains_key(i) by {
        if ids.contains_key(i) {
            assert(names.contains_key(ids[i]));
        }
    }
    assert(ids.dom() =~= Set::<u32>::empty());
}

/// The maps of well-formed bindings are inverse to each other.
pub proof fn lemma_bindings_inverse(b: HotkeyBindings)
    requires
        b.wf(),
    ensures
        inverse_maps(b.names_map(), b.ids_map()),
{
}

/// Whether every piece of `parts` but the last names a modifier.
pub open spec fn leading_are_modifiers(parts: Seq<Seq<char>>) -> bool {
    forall|i: int| 0 <= i < parts.len() - 1 ==> #[trigger] part_modifier(parts, i) is Some
}

/// A hotkey string parses the same whatever the order, case, alias or
/// repetition of its modifiers: two strings whose leading pieces all name
/// modifiers, name the same set of them, and end in the same key up to case
/// either both parse, to the same hotkey, or both fail.
pub proof fn lemma_parse_ignores_modifier_spelling(
    s1: Seq<char>,
    s2: Seq<char>,
    r1: Result<Hotkey, HotkeyError>,
    r2: Result<Hotkey, HotkeyError>,
)
    requires
        parse_outcome(s1, r1),
        parse_outcome(s2, r2),
        leading_are_modifiers(hotkey_parts(s1)),
        leading_are_modifiers(hotkey_parts(s2)),
        modifiers_of(hotkey_parts(s1), hotkey_parts(s1).len() - 1) == modifiers_of(
            hotkey_parts(s2),
            hotkey_parts(s2).len() - 1,
        ),
        uppercase(hotkey_parts(s1).last()) == uppercase(hotkey_parts(s2).last()),
    ensures
        r1 is Ok <==> r2 is Ok,
        r1 is Ok ==> r1 == r2,
{
    lemma_split_nonempty(s1, '+');
    lemma_split_nonempty(s2, '+');
    let p1 = hotkey_parts(s1);
    let p2 = hotkey_parts(s2);
    let n1 = p1.len() - 1;
    let n2 = p2.len() - 1;
    assert(p1[n1] == p1.last());
    assert(p2[n2] == p2.last());
    if r1 is Err {
        if let Err(HotkeyError::InvalidHotkey(m)) = r1 {
            if exists|i: int| 0 <= i < n1 && #[trigger] part_modifier(p1, i) is None {
                let i = choose|i: int| 0 <= i < n1 && #[trigger] part_modifier(p1, i) is None;
                assert(part_modifier(p1, i) is Some);
            }
        }
    }
    if r2 is Err {
        if let Err(HotkeyError::InvalidHotkey(m)) = r2 {
            if exists|i: int| 0 <= i < n2 && #[trigger] part_modifier(p2, i) is None {
                let i = choose|i: int| 0 <= i < n2 && #[trigger] part_modifier(p2, i) is None;
                assert(part_modifier(p2, i) is Some);
            }
        }
    }
}

/// Every function key from F1 to F20 is named by `F` and its number.
pub proof fn lemma_function_keys_named(n: nat)
    requires
        1 <= n <= 20,
    ensures
        key_name(seq!['F'] + decimal(n)) == Some(KeyCode::Function(n as u8)),
{
    let u = seq!['F'] + decimal(n);
    if n < 10 {
        assert(decimal(n) == seq![digit_char(n)]);
        assert(u.skip(1) =~= seq![digit_char(n)]);
        assert(digit_value(digit_char(n)) == n);
    } else {
        assert(decimal(n) == decimal(n / 10).push(digit_char(n % 10)));
        assert(decimal(n / 10) == seq![digit_char(n / 10)]);
        assert(u.skip(1) =~= seq![digit_char(n / 10), digit_char(n % 10)]);
        assert(digit_value(digit_char(n % 10)) == n % 10);
    }
}

/// Single letters and digits name their keys, and `SPACE`, `RETURN` and
/// `ENTER` name the space and return keys.
pub proof fn lemma_plain_keys_named(c: char, d: nat)
    requires
        d < 10,
    ensures
        'A' <= c <= 'Z' ==> key_name(seq![c]) == Some(KeyCode::Letter(c)),
        key_name(seq![digit_char(d)]) == Some(KeyCode::Digit(d as u8)),
        key_name("SPACE"@) == Some(KeyCode::Space),
        key_name("RETURN"@) == Some(KeyCode::Enter),
        key_name("ENTER"@) == Some(KeyCode::Enter),
{
    reveal_strlit("SPACE");
    reveal_strlit("RETURN");
    reveal_strlit("ENTER");
    assert(digit_value(digit_char(d)) == d);
}

} // verus!
