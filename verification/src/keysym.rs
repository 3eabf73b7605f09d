//! From the name of a key to its X11 keysym.

use crate::error::InputError;
use vstd::prelude::*;
use vstd::string::*;

verus! {

/// The keysym of the space bar.
pub const XK_SPACE: u32 = 0x20;

/// The keysym of Escape.
pub const XK_ESCAPE: u32 = 0xff1b;

/// The keysym of the left Alt key.
pub const XK_ALT_L: u32 = 0xffe9;

/// The keysym of the right Alt key.
pub const XK_ALT_R: u32 = 0xffea;

/// The keysym of Num Lock.
pub const XK_NUM_LOCK: u32 = 0xff7f;

/// The keysym of Return.
pub const XK_RETURN: u32 = 0xff0d;

/// The keysym of Tab.
pub const XK_TAB: u32 = 0xff09;

/// The keysym of Backspace.
pub const XK_BACKSPACE: u32 = 0xff08;

/// The keysym before F1; the function keys follow it in order.
pub const XK_BEFORE_F1: u32 = 0xffbd;

/// How many function keys have a keysym.
pub const FUNCTION_KEYS: u32 = 24;

/// A letter from `A` to `Z` in lower case; any other character as it is.
pub open spec fn lower(c: char) -> char {
    if 'A' <= c <= 'Z' {
        (c as u32 - 'A' as u32 + 'a' as u32) as char
    } else {
        c
    }
}

/// A text with its ASCII letters in lower case.
pub open spec fn lowercase(text: Seq<char>) -> Seq<char> {
    text.map_values(|c: char| lower(c))
}

/// `str::to_ascii_lowercase`: maps `A` to `Z` to `a` to `z` and leaves every
/// other character unchanged.
pub assume_specification[ str::to_ascii_lowercase ](text: &str) -> (lowered: String)
    ensures
        lowered@ == lowercase(text@),
;

/// A printing ASCII character other than the space.
pub open spec fn is_graphic(c: char) -> bool {
    '!' <= c <= '~'
}

pub open spec fn is_digit(c: char) -> bool {
    '0' <= c <= '9'
}

/// The number that decimal digits stand for.
pub open spec fn decimal_value(digits: Seq<char>) -> int
    decreases digits.len(),
{
    if digits.len() == 0 {
        0
    } else {
        decimal_value(digits.drop_last()) * 10 + (digits.last() as int - '0' as int)
    }
}

/// A text without the plus sign at its head.
pub open spec fn without_sign(text: Seq<char>) -> Seq<char> {
    if text.len() > 0 && text[0] == '+' {
        text.skip(1)
    } else {
        text
    }
}

pub open spec fn all_digits(text: Seq<char>) -> bool {
    forall|i: int| 0 <= i < text.len() ==> is_digit(#[trigger] text[i])
}

/// The number that a text stands for: digits, and at most one plus sign before
/// them.
pub open spec fn number(text: Seq<char>) -> Option<int> {
    let digits = without_sign(text);
    if digits.len() > 0 && all_digits(digits) {
        Some(decimal_value(digits))
    } else {
        None
    }
}

/// What the lower-case name of a key leads to.
pub enum Lookup {
    Found(u32),
    NoFunctionKey,
    NoKey,
}

/// The keysym of a lower-case name: a name proper, a single printing
/// character, or `f` and the number of a function key.
pub open spec fn lookup(name: Seq<char>) -> Lookup {
    if name == "space"@ {
        Lookup::Found(XK_SPACE)
    } else if name == "enter"@ || name == "return"@ {
        Lookup::Found(XK_RETURN)
    } else if name == "tab"@ {
        Lookup::Found(XK_TAB)
    } else if name == "backspace"@ {
        Lookup::Found(XK_BACKSPACE)
    } else if name.len() == 1 && is_graphic(name[0]) {
        Lookup::Found(name[0] as u32)
    } else if name.len() > 0 && name[0] == 'f' {
        match number(name.skip(1)) {
            Some(n) if 1 <= n <= FUNCTION_KEYS => Lookup::Found((XK_BEFORE_F1 + n) as u32),
            _ => Lookup::NoFunctionKey,
        }
    } else {
        Lookup::NoKey
    }
}

fn collect(text: &str) -> (chars: Vec<char>)
    ensures
        chars@ == text@,
{
    let mut chars: Vec<char> = Vec::new();
    for c in it: text.chars()
        invariant
            it.seq() == text@,
            chars@ == it.seq().take(it.index() as int),
    {
        chars.push(c);
    }
    chars
}

fn spells(chars: &Vec<char>, name: &str) -> (same: bool)
    ensures
        same == (chars@ == name@),
{
    let expected = collect(name);
    if chars.len() != expected.len() {
        return false;
    }
    for i in 0..chars.len()
        invariant
            expected@ == name@,
            chars.len() == expected.len(),
            forall|j: int| 0 <= j < i ==> chars[j] == expected[j],
    {
        if chars[i] != expected[i] {
            return false;
        }
    }
    assert(chars@ =~= name@);
    true
}

/// The number at the end of a name, where it is in the range of the function
/// keys.
fn function_number(chars: &Vec<char>, from: usize) -> (n: Option<u32>)
    requires
        from <= chars.len(),
    ensures
        match number(chars@.skip(from as int)) {
            Some(value) if 1 <= value <= FUNCTION_KEYS => n == Some(value as u32),
            _ => n is None,
        },
{
    let ghost text = chars@.skip(from as int);
    let mut start: usize = from;
    if from < chars.len() && chars[from] == '+' {
        start = from + 1;
        assert(text.skip(1) =~= chars@.skip(start as int));
    }
    let ghost digits = chars@.skip(start as int);
    assert(digits == without_sign(text));
    if start == chars.len() {
        return None;
    }
    let mut value: u32 = 0;
    let mut i: usize = start;
    while i < chars.len()
        invariant
            start <= i <= chars.len(),
            digits == chars@.skip(start as int),
            digits == without_sign(chars@.skip(from as int)),
            forall|j: int| 0 <= j < i - start ==> is_digit(#[trigger] digits[j]),
            decimal_value(digits.take(i - start)) <= FUNCTION_KEYS ==> value == decimal_value(
                digits.take(i - start),
            ),
            decimal_value(digits.take(i - start)) > FUNCTION_KEYS ==> value == FUNCTION_KEYS + 1,
            0 <= decimal_value(digits.take(i - start)),
        decreases chars.len() - i,
    {
        let c = chars[i];
        assert(digits[i - start] == c);
        if c < '0' || '9' < c {
            assert(!is_digit(digits[i - start]));
            assert(!all_digits(digits));
            return None;
        }
        assert(digits.take(i + 1 - start).drop_last() =~= digits.take(i - start));
        let sum: u32 = value * 10 + (c as u32 - '0' as u32);
        value = if sum > FUNCTION_KEYS {
            FUNCTION_KEYS + 1
        } else {
            sum
        };
        i = i + 1;
    }
    assert(digits.take(i - start) =~= digits);
    if 1 <= value && value <= FUNCTION_KEYS {
        Some(value)
    } else {
        None
    }
}

/// The keysym of the key with this name, in upper or lower case.
///
/// The names are `space`, `enter`, `return`, `tab`, `backspace`, every
/// printing ASCII character and `f1` to `f24`.
pub fn keysym(key: &str) -> (found: Result<u32, InputError>)
    ensures
        match lookup(lowercase(key@)) {
            Lookup::Found(symbol) => found == Ok::<u32, InputError>(symbol),
            Lookup::NoFunctionKey => found matches Err(InputError::UnsupportedFunctionKey {
                key: name,
            }) && name@ == lowercase(key@),
            Lookup::NoKey => found matches Err(InputError::UnsupportedKey { key: name }) && name@
                == lowercase(key@),
        },
{
    let key = key.to_ascii_lowercase();
    let name = collect(key.as_str());
    if spells(&name, "space") {
        Ok(XK_SPACE)
    } else if spells(&name, "enter") || spells(&name, "return") {
        Ok(XK_RETURN)
    } else if spells(&name, "tab") {
        Ok(XK_TAB)
    } else if spells(&name, "backspace") {
        Ok(XK_BACKSPACE)
    } else if name.len() == 1 && '!' <= name[0] && name[0] <= '~' {
        Ok(name[0] as u32)
    } else if name.len() > 0 && name[0] == 'f' {
        match function_number(&name, 1) {
            Some(number) => Ok(XK_BEFORE_F1 + number),
            None => Err(InputError::UnsupportedFunctionKey { key }),
        }
    } else {
        Err(InputError::UnsupportedKey { key })
    }
}

/// The keys that are searched for by their keysym alone: Escape, both Alt keys
/// and Num Lock.
pub proof fn law_the_fixed_keysyms()
    ensures
        XK_ESCAPE == 0xff1b,
        XK_ALT_L == 0xffe9,
        XK_ALT_R == XK_ALT_L + 1,
        XK_NUM_LOCK == 0xff7f,
{
}

/// Names that differ in the case of their letters alone name the same key.
pub proof fn law_case_does_not_matter(a: Seq<char>, b: Seq<char>)
    requires
        a.len() == b.len(),
        forall|i: int| 0 <= i < a.len() ==> lower(#[trigger] a[i]) == lower(b[i]),
    ensures
        lookup(lowercase(a)) == lookup(lowercase(b)),
        lookup(lowercase(lowercase(a))) == lookup(lowercase(a)),
{
    assert forall|i: int| 0 <= i < a.len() implies lowercase(a)[i] == lowercase(b)[i] by {
        assert(lower(a[i]) == lower(b[i]));
    }
    assert(lowercase(a) =~= lowercase(b));
    assert(lowercase(lowercase(a)) =~= lowercase(a));
}

/// `f` and a number name that function key, and no key where there is none.
pub proof fn law_function_keys_are_numbered(digits: Seq<char>)
    requires
        number(digits) is Some,
    ensures
        lookup(seq!['f'] + digits) == if 1 <= number(digits)->0 <= FUNCTION_KEYS {
            Lookup::Found((XK_BEFORE_F1 + number(digits)->0) as u32)
        } else {
            Lookup::NoFunctionKey
        },
{
    let name = seq!['f'] + digits;
    reveal_strlit("space");
    reveal_strlit("enter");
    reveal_strlit("return");
    reveal_strlit("tab");
    reveal_strlit("backspace");
    assert(name[0] == 'f');
    assert("space"@[0] == 's' && "enter"@[0] == 'e' && "return"@[0] == 'r' && "tab"@[0] == 't'
        && "backspace"@[0] == 'b');
    assert(name.skip(1) =~= digits);
}

/// A printing character names the key with its own code, in lower case.
pub proof fn law_characters_name_themselves(c: char)
    requires
        is_graphic(c),
    ensures
        lookup(lowercase(seq![c])) == Lookup::Found(lower(c) as u32),
{
    reveal_strlit("space");
    reveal_strlit("enter");
    reveal_strlit("return");
    reveal_strlit("tab");
    reveal_strlit("backspace");
    assert(lowercase(seq![c]).len() == 1);
    assert(lowercase(seq![c])[0] == lower(c));
}

/// Whether `c` is the small letter, digit or sign `l`, or its capital.
pub open spec fn in_either_case(c: char, l: char) -> bool {
    c == l || ('a' <= l <= 'z' && c as int + 32 == l as int)
}

/// Whether a name spells a word, whatever the case of its letters.
pub open spec fn spelled(key: Seq<char>, word: Seq<char>) -> bool {
    &&& key.len() == word.len()
    &&& forall|i: int| 0 <= i < word.len() ==> in_either_case(#[trigger] key[i], word[i])
}

/// Whether a text from `start` on is a number below 100 in decimal digits, with
/// any number of zeros before it.
pub open spec fn writes(text: Seq<char>, start: int, n: int) -> bool {
    &&& text.len() >= start + (if n < 10 {
        1int
    } else {
        2
    })
    &&& forall|i: int|
        start <= i < text.len() ==> #[trigger] text[i] as int == '0' as int + (if i == text.len()
            - 1 {
            n % 10
        } else if i == text.len() - 2 {
            n / 10
        } else {
            0
        })
}

/// Whether a name is `f` and the number `n` of one of the 24 function keys, the
/// number with at most one plus sign before it.
pub open spec fn names_function_key(key: Seq<char>, n: int) -> bool {
    &&& 1 <= n <= 24
    &&& key.len() >= 2
    &&& in_either_case(key[0], 'f')
    &&& writes(key, 1, n) || (key[1] == '+' && writes(key, 2, n))
}

/// Whether a name is that of the key with this keysym.
pub open spec fn names(key: Seq<char>, symbol: int) -> bool {
    ||| spelled(key, seq!['s', 'p', 'a', 'c', 'e']) && symbol == 0x20
    ||| spelled(key, seq!['e', 'n', 't', 'e', 'r']) && symbol == 0xff0d
    ||| spelled(key, seq!['r', 'e', 't', 'u', 'r', 'n']) && symbol == 0xff0d
    ||| spelled(key, seq!['t', 'a', 'b']) && symbol == 0xff09
    ||| spelled(key, seq!['b', 'a', 'c', 'k', 's', 'p', 'a', 'c', 'e']) && symbol == 0xff08
    ||| key.len() == 1 && 'A' <= key[0] <= 'Z' && symbol == key[0] as int + 32
    ||| key.len() == 1 && '!' <= key[0] <= '~' && !('A' <= key[0] <= 'Z') && symbol
        == key[0] as int
    ||| names_function_key(key, symbol - 0xffbd)
}

/// Whether `lowered` is `key` with its capitals from `A` to `Z` made small.
pub open spec fn is_lowered(lowered: Seq<char>, key: Seq<char>) -> bool {
    &&& lowered.len() == key.len()
    &&& forall|i: int|
        0 <= i < key.len() ==> #[trigger] lowered[i] as int == key[i] as int + (if 'A' <= key[i]
            <= 'Z' {
            32int
        } else {
            0
        })
}

proof fn lemma_zeros(digits: Seq<char>)
    requires
        all_digits(digits),
    ensures
        decimal_value(digits) >= 0,
        decimal_value(digits) == 0 <==> forall|i: int|
            0 <= i < digits.len() ==> #[trigger] digits[i] == '0',
    decreases digits.len(),
{
    if digits.len() > 0 {
        let front = digits.drop_last();
        assert forall|i: int| 0 <= i < front.len() implies is_digit(#[trigger] front[i]) by {
            assert(is_digit(digits[i]));
        }
        lemma_zeros(front);
        assert(is_digit(digits[digits.len() - 1]));
        if decimal_value(digits) == 0 {
            assert forall|i: int| 0 <= i < digits.len() implies #[trigger] digits[i] == '0' by {
                if i < front.len() {
                    assert(front[i] == '0');
                }
            }
        }
        if forall|i: int| 0 <= i < digits.len() ==> #[trigger] digits[i] == '0' {
            assert forall|i: int| 0 <= i < front.len() implies #[trigger] front[i] == '0' by {
                assert(digits[i] == '0');
            }
            assert(digits[digits.len() - 1] == '0');
        }
    }
}

/// Digits with a value below 100 end in its two digits, with zeros before.
proof fn lemma_two_digits(digits: Seq<char>, n: int)
    requires
        0 <= n < 100,
        digits.len() > 0,
    ensures
        all_digits(digits) && decimal_value(digits) == n <==> writes(digits, 0, n),
{
    let front = digits.drop_last();
    if writes(digits, 0, n) {
        assert forall|i: int| 0 <= i < digits.len() implies is_digit(#[trigger] digits[i]) by {}
        assert(digits[digits.len() - 1] as int == '0' as int + n % 10);
    }
    if all_digits(digits) {
        assert(is_digit(digits[digits.len() - 1]));
        assert forall|i: int| 0 <= i < front.len() implies is_digit(#[trigger] front[i]) by {
            assert(is_digit(digits[i]));
        }
        lemma_zeros(front);
        if front.len() > 0 {
            let head = front.drop_last();
            assert(is_digit(front[front.len() - 1]));
            assert forall|i: int| 0 <= i < head.len() implies is_digit(#[trigger] head[i]) by {
                assert(is_digit(front[i]));
            }
            lemma_zeros(head);
            if writes(digits, 0, n) {
                assert forall|i: int| 0 <= i < head.len() implies #[trigger] head[i] == '0' by {
                    assert(digits[i] as int == '0' as int);
                }
                assert(digits[digits.len() - 2] as int == '0' as int + n / 10);
            }
            if decimal_value(digits) == n {
                assert(decimal_value(front) == n / 10);
                assert(decimal_value(head) == 0);
                assert forall|i: int| 0 <= i < digits.len() implies #[trigger] digits[i] as int
                    == '0' as int + (if i == digits.len() - 1 {
                    n % 10
                } else if i == digits.len() - 2 {
                    n / 10
                } else {
                    0
                }) by {
                    if i < head.len() {
                        assert(head[i] == '0');
                    }
                }
            }
        }
    }
}

/// A name that leads to a key is one of the five words, one printing character
/// or that of a function key, and leads to the keysym of that key; every such
/// name leads to its key. Of the others, those of two characters and more with
/// an `f` at their head are no function keys, and the rest no keys at all; both
/// are reported in small letters.
pub proof fn law_keys_have_their_names_and_no_others(key: &str, found: Result<u32, InputError>)
    requires
        call_ensures(keysym, (key,), found),
    ensures
        found matches Ok(symbol) ==> names(key@, symbol as int),
        forall|symbol: u32| #[trigger]
            names(key@, symbol as int) ==> found == Ok::<u32, InputError>(symbol),
        found matches Err(error) ==> match error {
            InputError::UnsupportedFunctionKey { key: name } => key@.len() >= 2 && in_either_case(
                key@[0],
                'f',
            ) && is_lowered(name@, key@),
            InputError::UnsupportedKey { key: name } => !(key@.len() >= 1 && in_either_case(
                key@[0],
                'f',
            )) && is_lowered(name@, key@),
            _ => false,
        },
{
    law_lookup_goes_by_the_names(key@);
}

/// What a name leads to, in whatever case it is written: a keysym exactly where
/// it names that key, and otherwise one of the two refusals by how it begins.
pub proof fn law_lookup_goes_by_the_names(text: Seq<char>)
    ensures
        is_lowered(lowercase(text), text),
        forall|symbol: u32|
            #![trigger names(text, symbol as int)]
            names(text, symbol as int) <==> lookup(lowercase(text)) == Lookup::Found(symbol),
        lookup(lowercase(text)) is NoFunctionKey ==> text.len() >= 2 && in_either_case(
            text[0],
            'f',
        ),
        lookup(lowercase(text)) is NoKey ==> !(text.len() >= 1 && in_either_case(text[0], 'f')),
{
    let low = lowercase(text);
    assert(is_lowered(low, text));
    lemma_spelled(text, seq!['s', 'p', 'a', 'c', 'e']);
    lemma_spelled(text, seq!['e', 'n', 't', 'e', 'r']);
    lemma_spelled(text, seq!['r', 'e', 't', 'u', 'r', 'n']);
    lemma_spelled(text, seq!['t', 'a', 'b']);
    lemma_spelled(text, seq!['b', 'a', 'c', 'k', 's', 'p', 'a', 'c', 'e']);
    reveal_strlit("space");
    reveal_strlit("enter");
    reveal_strlit("return");
    reveal_strlit("tab");
    reveal_strlit("backspace");
    assert("space"@ =~= seq!['s', 'p', 'a', 'c', 'e']);
    assert("enter"@ =~= seq!['e', 'n', 't', 'e', 'r']);
    assert("return"@ =~= seq!['r', 'e', 't', 'u', 'r', 'n']);
    assert("tab"@ =~= seq!['t', 'a', 'b']);
    assert("backspace"@ =~= seq!['b', 'a', 'c', 'k', 's', 'p', 'a', 'c', 'e']);
    assert forall|n: int| 1 <= n <= 24 implies (#[trigger] names_function_key(text, n) <==> (
    text.len() >= 2 && low[0] == 'f' && number(low.skip(1)) == Some(n))) by {
        lemma_function_key_name(text, n);
    }
}

proof fn lemma_spelled(key: Seq<char>, word: Seq<char>)
    requires
        forall|i: int| 0 <= i < word.len() ==> 'a' <= #[trigger] word[i] <= 'z',
    ensures
        spelled(key, word) <==> lowercase(key) == word,
{
    let low = lowercase(key);
    assert forall|i: int| 0 <= i < word.len() && key.len() == word.len() implies (in_either_case(
        #[trigger] key[i],
        word[i],
    ) <==> low[i] == word[i]) by {}
    if spelled(key, word) {
        assert forall|i: int| 0 <= i < word.len() implies low[i] == word[i] by {
            assert(in_either_case(key[i], word[i]));
        }
        assert(low =~= word);
    }
}

proof fn lemma_function_key_name(key: Seq<char>, n: int)
    requires
        1 <= n <= 24,
    ensures
        names_function_key(key, n) <==> key.len() >= 2 && lowercase(key)[0] == 'f' && number(
            lowercase(key).skip(1),
        ) == Some(n),
{
    let low = lowercase(key);
    if key.len() >= 2 {
        let rest = low.skip(1);
        assert(rest[0] == low[1]);
        let start: int = if rest[0] == '+' {
            2
        } else {
            1
        };
        let digits = without_sign(rest);
        assert(digits =~= low.skip(start));
        if digits.len() > 0 {
            lemma_two_digits(digits, n);
        }
        assert(writes(digits, 0, n) <==> writes(key, start, n)) by {
            if writes(digits, 0, n) {
                assert forall|i: int| start <= i < key.len() implies #[trigger] key[i] as int
                    == '0' as int + (if i == key.len() - 1 {
                    n % 10
                } else if i == key.len() - 2 {
                    n / 10
                } else {
                    0
                }) by {
                    assert(digits[i - start] == lower(key[i]));
                }
            }
            if writes(key, start, n) {
                assert forall|i: int| 0 <= i < digits.len() implies #[trigger] digits[i] as int
                    == '0' as int + (if i == digits.len() - 1 {
                    n % 10
                } else if i == digits.len() - 2 {
                    n / 10
                } else {
                    0
                }) by {
                    assert(digits[i] == lower(key[i + start]));
                    assert(key[i + start] as int >= '0' as int);
                }
            }
        }
        if key[1] == '+' {
            assert(!writes(key, 1, n)) by {
                if writes(key, 1, n) {
                    assert(key[1] as int >= '0' as int);
                }
            }
        }
    }
}

} // verus!
