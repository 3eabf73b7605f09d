//! The keyboard tables of the server: from keysyms to keycodes and modifiers.
//!
//! A table is a list that is cut into rows of one width; the last row may be
//! shorter. The item at index `i` lies in row `i / width`.

use crate::error::InputError;
use crate::keysym::{
    in_either_case, is_lowered, keysym, law_lookup_goes_by_the_names, lookup, lowercase, names,
    Lookup, XK_ESCAPE,
};
use crate::x11::{m2_mask, M2};
use vstd::prelude::*;
use x11rb::protocol::xproto::{GetKeyboardMappingReply, GetModifierMappingReply};

verus! {

/// Whether one of the items of a row is wanted.
pub open spec fn row_has<T>(items: Seq<T>, width: int, wanted: Set<T>, row: int) -> bool {
    exists|i: int|
        0 <= i < items.len() && i / width == row && wanted.contains(#[trigger] items[i])
}

/// Whether `row` is the first row with a wanted item.
pub open spec fn is_first_row<T>(items: Seq<T>, width: int, wanted: Set<T>, row: int) -> bool {
    &&& row_has(items, width, wanted, row)
    &&& forall|earlier: int|
        0 <= earlier < row ==> !(#[trigger] row_has(items, width, wanted, earlier))
}

/// The first row with a wanted item.
pub open spec fn first_row<T>(items: Seq<T>, width: int, wanted: Set<T>) -> Option<int> {
    if exists|row: int| is_first_row(items, width, wanted, row) {
        Some(choose|row: int| is_first_row(items, width, wanted, row))
    } else {
        None
    }
}

/// The row of the first wanted item is the first row with a wanted item.
proof fn lemma_first_item_gives_first_row<T>(items: Seq<T>, width: int, wanted: Set<T>, i: int)
    requires
        width > 0,
        0 <= i < items.len(),
        wanted.contains(items[i]),
        forall|j: int| 0 <= j < i ==> !wanted.contains(#[trigger] items[j]),
    ensures
        first_row(items, width, wanted) == Some(i / width),
{
    let row = i / width;
    assert(row_has(items, width, wanted, row));
    assert forall|earlier: int| 0 <= earlier < row implies !(#[trigger] row_has(
        items,
        width,
        wanted,
        earlier,
    )) by {
        if row_has(items, width, wanted, earlier) {
            let j = choose|j: int|
                0 <= j < items.len() && j / width == earlier && wanted.contains(
                    #[trigger] items[j],
                );
            vstd::arithmetic::div_mod::lemma_div_is_ordered(i, j, width);
        }
    }
    assert(is_first_row(items, width, wanted, row));
    let chosen = choose|row: int| is_first_row(items, width, wanted, row);
    assert(is_first_row(items, width, wanted, chosen));
    let j = choose|j: int|
        0 <= j < items.len() && j / width == chosen && wanted.contains(#[trigger] items[j]);
    vstd::arithmetic::div_mod::lemma_div_pos_is_pos(j, width);
    vstd::arithmetic::div_mod::lemma_div_pos_is_pos(i, width);
    if chosen < row {
        assert(!row_has(items, width, wanted, chosen));
    }
    if row < chosen {
        assert(!row_has(items, width, wanted, row));
    }
}

/// Without a wanted item there is no such row.
proof fn lemma_no_item_gives_no_row<T>(items: Seq<T>, width: int, wanted: Set<T>)
    requires
        forall|j: int| 0 <= j < items.len() ==> !wanted.contains(#[trigger] items[j]),
    ensures
        first_row(items, width, wanted) is None,
{
    if exists|row: int| is_first_row(items, width, wanted, row) {
        let row = choose|row: int| is_first_row(items, width, wanted, row);
        assert(row_has(items, width, wanted, row));
    }
}

/// There is a first row with a wanted item exactly where there is a wanted
/// item, and it holds one.
pub proof fn law_first_row_exists_with_an_item<T>(items: Seq<T>, width: int, wanted: Set<T>)
    requires
        width > 0,
    ensures
        first_row(items, width, wanted) is Some <==> exists|i: int|
            0 <= i < items.len() && wanted.contains(#[trigger] items[i]),
        first_row(items, width, wanted) matches Some(row) ==> is_first_row(
            items,
            width,
            wanted,
            row,
        ),
{
    if exists|i: int| 0 <= i < items.len() && wanted.contains(#[trigger] items[i]) {
        let i = choose|i: int| 0 <= i < items.len() && wanted.contains(#[trigger] items[i]);
        let first = first_item(items, wanted, i);
        lemma_first_item(items, wanted, i);
        lemma_first_item_gives_first_row(items, width, wanted, first);
    } else {
        lemma_no_item_gives_no_row(items, width, wanted);
    }
}

/// The first wanted item up to index `i`, which holds one.
spec fn first_item<T>(items: Seq<T>, wanted: Set<T>, i: int) -> int
    decreases i,
{
    if i > 0 && exists|j: int| 0 <= j < i && wanted.contains(#[trigger] items[j]) {
        let j = choose|j: int| 0 <= j < i && wanted.contains(#[trigger] items[j]);
        first_item(items, wanted, j)
    } else {
        i
    }
}

proof fn lemma_first_item<T>(items: Seq<T>, wanted: Set<T>, i: int)
    requires
        0 <= i < items.len(),
        wanted.contains(items[i]),
    ensures
        0 <= first_item(items, wanted, i) <= i,
        wanted.contains(items[first_item(items, wanted, i)]),
        forall|j: int|
            0 <= j < first_item(items, wanted, i) ==> !wanted.contains(#[trigger] items[j]),
    decreases i,
{
    if i > 0 && exists|j: int| 0 <= j < i && wanted.contains(#[trigger] items[j]) {
        let j = choose|j: int| 0 <= j < i && wanted.contains(#[trigger] items[j]);
        lemma_first_item(items, wanted, j);
    }
}

proof fn lemma_first_row_is_not_negative<T>(items: Seq<T>, width: int, wanted: Set<T>)
    requires
        width > 0,
    ensures
        first_row(items, width, wanted) matches Some(row) ==> row >= 0,
{
    if let Some(row) = first_row(items, width, wanted) {
        assert(row_has(items, width, wanted, row));
        let i = choose|i: int|
            0 <= i < items.len() && i / width == row && wanted.contains(#[trigger] items[i]);
        vstd::arithmetic::div_mod::lemma_div_pos_is_pos(i, width);
    }
}

/// How many keycodes there are from the lowest to the highest.
pub fn keycode_count(min: u8, max: u8) -> (count: u8)
    requires
        min <= max,
        max - min < u8::MAX,
    ensures
        count == max - min + 1,
{
    max - min + 1
}

/// The keysyms of every key, row by row from the lowest keycode on.
#[derive(Debug)]
pub struct Keymap {
    min: u8,
    symbols_per_keycode: usize,
    symbols: Vec<u32>,
}

impl Keymap {
    /// The keycode of the first row.
    pub closed spec fn min(&self) -> u8 {
        self.min
    }

    /// The width of the rows.
    pub closed spec fn width(&self) -> nat {
        self.symbols_per_keycode as nat
    }

    /// All keysyms, row after row.
    pub closed spec fn table(&self) -> Seq<u32> {
        self.symbols@
    }

    /// The first row with this keysym.
    pub open spec fn row_of(&self, keysym: u32) -> Option<int> {
        first_row(self.table(), self.width() as int, set![keysym])
    }

    /// The key that bears this keysym: its row, counted in a byte from the
    /// lowest keycode on.
    pub open spec fn keycode_of(&self, keysym: u32) -> Option<int> {
        match self.row_of(keysym) {
            Some(row) => Some(self.min() + row % 256),
            None => None,
        }
    }

    /// Whether a search for this keysym stays within the keycodes.
    pub open spec fn searchable(&self, keysym: u32) -> bool {
        &&& self.width() > 0
        &&& self.keycode_of(keysym) matches Some(code) ==> code <= u8::MAX
    }

    /// The keys that bear one of these keysyms.
    pub open spec fn keycodes_of(&self, keysyms: Seq<u32>) -> Set<u8> {
        Set::new(
            |code: u8|
                exists|i: int|
                    0 <= i < keysyms.len() && self.keycode_of(#[trigger] keysyms[i]) == Some(
                        code as int,
                    ),
        )
    }

    /// The keymap that the server describes.
    pub fn read(min_keycode: u8, mapping: GetKeyboardMappingReply) -> (keymap: Keymap)
        ensures
            keymap.min() == min_keycode,
            keymap.width() == mapping.keysyms_per_keycode,
            keymap.table() == mapping.keysyms@,
    {
        Keymap {
            min: min_keycode,
            symbols_per_keycode: mapping.keysyms_per_keycode as usize,
            symbols: mapping.keysyms,
        }
    }

    /// The first row with this keysym.
    fn find_row(&self, keysym: u32) -> (row: Option<usize>)
        requires
            self.width() > 0,
        ensures
            match row {
                Some(row) => self.row_of(keysym) == Some(row as int),
                None => self.row_of(keysym) is None,
            },
    {
        for i in 0..self.symbols.len()
            invariant
                self.width() > 0,
                forall|j: int|
                    0 <= j < i ==> !set![keysym].contains(#[trigger] self.table()[j]),
        {
            if self.symbols[i] == keysym {
                proof {
                    lemma_first_item_gives_first_row(
                        self.table(),
                        self.width() as int,
                        set![keysym],
                        i as int,
                    );
                }
                return Some(i / self.symbols_per_keycode);
            }
        }
        proof {
            lemma_no_item_gives_no_row(self.table(), self.width() as int, set![keysym]);
        }
        None
    }

    /// Whether [`Keymap::keycode`] may be asked for this keysym.
    pub fn is_searchable(&self, keysym: u32) -> (yes: bool)
        ensures
            yes == self.searchable(keysym),
    {
        if self.symbols_per_keycode == 0 {
            return false;
        }
        match self.find_row(keysym) {
            Some(row) => row % 256 <= (u8::MAX - self.min) as usize,
            None => true,
        }
    }

    /// The key that bears this keysym.
    pub fn keycode(&self, keysym: u32) -> (code: Result<u8, InputError>)
        requires
            self.searchable(keysym),
        ensures
            match self.keycode_of(keysym) {
                Some(found) => code == Ok::<u8, InputError>(found as u8),
                None => code == Err::<u8, InputError>(InputError::MissingKeysym { keysym }),
            },
    {
        match self.find_row(keysym) {
            Some(row) => Ok(self.min + (row % 256) as u8),
            None => Err(InputError::MissingKeysym { keysym }),
        }
    }

    /// The modifier that one of these keysyms acts as, as a mask of one bit.
    ///
    /// The modifier table has eight rows, one for each modifier.
    pub fn modifier_for(&self, keysyms: &[u32], mapping: &GetModifierMappingReply) -> (mask: Result<
        u16,
        InputError,
    >)
        requires
            forall|i: int| 0 <= i < keysyms@.len() ==> self.searchable(#[trigger] keysyms@[i]),
            1 <= mapping.keycodes@.len() / 8 <= u8::MAX,
        ensures
            match first_row(
                mapping.keycodes@,
                mapping.keycodes@.len() as int / 8,
                self.keycodes_of(keysyms@),
            ) {
                Some(row) => row < 16 && mask == Ok::<u16, InputError>(1u16 << (row as u16)),
                None => mask == Err::<u16, InputError>(InputError::UnmappedModifier),
            },
    {
        let ghost wanted = self.keycodes_of(keysyms@);
        let mut keycodes: Vec<u8> = Vec::new();
        let mut next: usize = 0;
        assert(self.keycodes_of(keysyms@.take(0)) =~= keycodes@.to_set());
        while next < keysyms.len()
            invariant
                next <= keysyms.len(),
                forall|i: int| 0 <= i < keysyms@.len() ==> self.searchable(#[trigger] keysyms@[i]),
                self.keycodes_of(keysyms@.take(next as int)) == keycodes@.to_set(),
            decreases keysyms.len() - next,
        {
            let ghost before = keycodes@;
            if let Ok(code) = self.keycode(keysyms[next]) {
                keycodes.push(code);
                assert(keycodes@.to_set() =~= before.to_set().insert(code)) by {
                    broadcast use vstd::seq_lib::group_seq_properties;

                }
            }
            proof {
                self.lemma_keycodes_of_one_more(keysyms@, next as int);
            }
            next = next + 1;
        }
        assert(keysyms@.take(keysyms@.len() as int) =~= keysyms@);
        let width: usize = mapping.keycodes_per_modifier() as usize;
        for i in 0..mapping.keycodes.len()
            invariant
                wanted == self.keycodes_of(keysyms@),
                wanted == keycodes@.to_set(),
                width == mapping.keycodes@.len() / 8,
                width >= 1,
                forall|j: int| 0 <= j < i ==> !wanted.contains(#[trigger] mapping.keycodes@[j]),
        {
            let code = mapping.keycodes[i];
            if holds(&keycodes, code) {
                proof {
                    lemma_first_item_gives_first_row(
                        mapping.keycodes@,
                        width as int,
                        wanted,
                        i as int,
                    );
                    lemma_modifier_row_fits(mapping.keycodes@.len() as int, width as int, i as int);
                }
                return Ok(1u16 << (i / width));
            }
        }
        proof {
            lemma_no_item_gives_no_row(mapping.keycodes@, width as int, wanted);
        }
        Err(InputError::UnmappedModifier)
    }

    proof fn lemma_keycodes_of_one_more(&self, keysyms: Seq<u32>, n: int)
        requires
            0 <= n < keysyms.len(),
            self.searchable(keysyms[n]),
        ensures
            self.keycodes_of(keysyms.take(n + 1)) == match self.keycode_of(keysyms[n]) {
                Some(code) => self.keycodes_of(keysyms.take(n)).insert(code as u8),
                None => self.keycodes_of(keysyms.take(n)),
            },
    {
        let fewer = keysyms.take(n);
        let more = keysyms.take(n + 1);
        assert(more[n] == keysyms[n]);
        assert forall|code: u8| self.keycodes_of(fewer).contains(code) implies self.keycodes_of(
            more,
        ).contains(code) by {
            let i = choose|i: int|
                0 <= i < n && self.keycode_of(#[trigger] fewer[i]) == Some(code as int);
            assert(more[i] == fewer[i]);
        }
        assert forall|code: u8| self.keycodes_of(more).contains(code) implies self.keycodes_of(
            fewer,
        ).contains(code) || self.keycode_of(keysyms[n]) == Some(code as int) by {
            let i = choose|i: int|
                0 <= i < n + 1 && self.keycode_of(#[trigger] more[i]) == Some(code as int);
            if i < n {
                assert(fewer[i] == more[i]);
            }
        }
        if let Some(code) = self.keycode_of(keysyms[n]) {
            lemma_first_row_is_not_negative(
                self.table(),
                self.width() as int,
                set![keysyms[n]],
            );
            assert(self.keycodes_of(more) =~= self.keycodes_of(fewer).insert(code as u8));
        } else {
            assert(self.keycodes_of(more) =~= self.keycodes_of(fewer));
        }
    }
}

fn holds(codes: &Vec<u8>, code: u8) -> (yes: bool)
    ensures
        yes == codes@.contains(code),
{
    for i in 0..codes.len()
        invariant
            forall|j: int| 0 <= j < i ==> codes@[j] != code,
    {
        if codes[i] == code {
            return true;
        }
    }
    false
}

/// Rows of an eighth of the table number fewer than sixteen.
proof fn lemma_modifier_row_fits(len: int, width: int, i: int)
    requires
        width == len / 8,
        width >= 1,
        0 <= i < len,
    ensures
        0 <= i / width < 16,
{
    assert(0 <= i / width < 16) by (nonlinear_arith)
        requires
            width >= 1,
            0 <= i < 8 * width + 8,
    ;
}

/// The keys that the listener watches.
#[derive(Clone, Copy, Debug, Eq, PartialEq, Structural)]
pub struct WatchedKeys {
    pub trigger: u8,
    pub escape: u8,
}

impl Keymap {
    /// Whether the watched keys can be searched for: each search that is
    /// called for stays within the keycodes.
    pub open spec fn resolvable(&self, key: Seq<char>) -> bool {
        lookup(lowercase(key)) matches Lookup::Found(symbol) ==> {
            &&& self.searchable(symbol)
            &&& self.keycode_of(symbol) is Some ==> self.searchable(XK_ESCAPE)
        }
    }

    /// Whether [`Keymap::watched_keys`] may be asked for this trigger.
    pub fn is_resolvable(&self, key: &str) -> (yes: bool)
        ensures
            yes == self.resolvable(key@),
    {
        match keysym(key) {
            Ok(symbol) => self.is_searchable(symbol) && (self.find_row(symbol).is_none()
                || self.is_searchable(XK_ESCAPE)),
            Err(_) => true,
        }
    }

    /// The trigger with this name, and Escape.
    ///
    /// A name that stands for no key is reported first, then a trigger and
    /// then an Escape that the keyboard lacks.
    pub fn watched_keys(&self, key: &str) -> (keys: Result<WatchedKeys, InputError>)
        requires
            self.resolvable(key@),
        ensures
            match lookup(lowercase(key@)) {
                Lookup::Found(symbol) => match (
                    self.keycode_of(symbol),
                    self.keycode_of(XK_ESCAPE),
                ) {
                    (Some(trigger), Some(escape)) => keys == Ok::<WatchedKeys, InputError>(
                        WatchedKeys { trigger: trigger as u8, escape: escape as u8 },
                    ),
                    (None, _) => keys == Err::<WatchedKeys, InputError>(
                        InputError::MissingKeysym { keysym: symbol },
                    ),
                    (_, None) => keys == Err::<WatchedKeys, InputError>(
                        InputError::MissingKeysym { keysym: XK_ESCAPE },
                    ),
                },
                Lookup::NoFunctionKey => keys matches Err(InputError::UnsupportedFunctionKey {
                    key: name,
                }) && name@ == lowercase(key@),
                Lookup::NoKey => keys matches Err(InputError::UnsupportedKey { key: name })
                    && name@ == lowercase(key@),
            },
    {
        let symbol = match keysym(key) {
            Ok(symbol) => symbol,
            Err(error) => return Err(error),
        };
        let trigger = match self.keycode(symbol) {
            Ok(trigger) => trigger,
            Err(error) => return Err(error),
        };
        let escape = match self.keycode(XK_ESCAPE) {
            Ok(escape) => escape,
            Err(error) => return Err(error),
        };
        Ok(WatchedKeys { trigger, escape })
    }
}

/// The mask of Num Lock: what was found, or else the second user modifier.
pub fn num_lock_mask(found: Option<u16>) -> (mask: u16)
    ensures
        mask == match found {
            Some(bits) => bits,
            None => M2,
        },
{
    match found {
        Some(bits) => bits,
        None => m2_mask(),
    }
}

/// A keysym has a key exactly where it stands in the table; that key's row
/// bears it, and no earlier row does.
pub proof fn law_keycode_is_the_first_that_bears_the_keysym(keymap: Keymap, keysym: u32)
    requires
        keymap.width() > 0,
    ensures
        keymap.keycode_of(keysym) is Some <==> keymap.table().contains(keysym),
        keymap.row_of(keysym) matches Some(row) ==> {
            &&& keymap.keycode_of(keysym) == Some(keymap.min() + row % 256)
            &&& exists|i: int|
                0 <= i < keymap.table().len() && i / keymap.width() as int == row
                    && #[trigger] keymap.table()[i] == keysym
            &&& forall|i: int|
                0 <= i < keymap.table().len() && (i / keymap.width() as int) < row
                    ==> #[trigger] keymap.table()[i] != keysym
        },
{
    let items = keymap.table();
    let width = keymap.width() as int;
    let wanted = set![keysym];
    law_first_row_exists_with_an_item(items, width, wanted);
    if items.contains(keysym) {
        let i = items.index_of(keysym);
        assert(wanted.contains(items[i]));
    }
    if let Some(row) = keymap.row_of(keysym) {
        let i = choose|i: int|
            0 <= i < items.len() && i / width == row && wanted.contains(#[trigger] items[i]);
        assert(items[i] == keysym);
        assert forall|j: int| 0 <= j < items.len() && j / width < row implies #[trigger] items[j]
            != keysym by {
            vstd::arithmetic::div_mod::lemma_div_pos_is_pos(j, width);
            if items[j] == keysym {
                assert(row_has(items, width, wanted, j / width));
            }
        }
    }
}

/// A modifier is found exactly where one of the keys that bear the keysyms
/// stands in the modifier table.
pub proof fn law_modifier_is_found_where_mapped(
    keymap: Keymap,
    keysyms: Seq<u32>,
    keycodes: Seq<u8>,
)
    requires
        keycodes.len() / 8 >= 1,
    ensures
        first_row(keycodes, keycodes.len() as int / 8, keymap.keycodes_of(keysyms)) is Some
            <==> exists|i: int|
            0 <= i < keycodes.len() && keymap.keycodes_of(keysyms).contains(
                #[trigger] keycodes[i],
            ),
{
    law_first_row_exists_with_an_item(
        keycodes,
        keycodes.len() as int / 8,
        keymap.keycodes_of(keysyms),
    );
}

/// Whether a keysym stands at index `i` of a list and nowhere before.
pub open spec fn stands_first(items: Seq<u32>, keysym: u32, i: int) -> bool {
    &&& 0 <= i < items.len()
    &&& items[i] == keysym
    &&& forall|j: int| 0 <= j < i ==> #[trigger] items[j] != keysym
}

/// Whether the key that bears this keysym first is the one with this code.
pub open spec fn bears(keymap: Keymap, keysym: u32, code: int) -> bool {
    exists|i: int|
        {
            &&& #[trigger] stands_first(keymap.table(), keysym, i)
            &&& code == keymap.min() + (i / keymap.width() as int) % 256
        }
}

/// Whether this key is the first to bear one of these keysyms.
pub open spec fn bears_one_of(keymap: Keymap, keysyms: Seq<u32>, code: u8) -> bool {
    exists|i: int| 0 <= i < keysyms.len() && bears(keymap, #[trigger] keysyms[i], code as int)
}

/// Whether entry `j` of a modifier table is the first that is a key bearing one
/// of these keysyms.
pub open spec fn is_first_entry(
    keymap: Keymap,
    keysyms: Seq<u32>,
    keycodes: Seq<u8>,
    j: int,
) -> bool {
    &&& 0 <= j < keycodes.len()
    &&& bears_one_of(keymap, keysyms, keycodes[j])
    &&& forall|earlier: int|
        0 <= earlier < j ==> !bears_one_of(keymap, keysyms, #[trigger] keycodes[earlier])
}

proof fn lemma_bearer(keymap: Keymap, keysym: u32)
    requires
        keymap.width() > 0,
    ensures
        forall|code: int| #[trigger]
            bears(keymap, keysym, code) <==> keymap.keycode_of(keysym) == Some(code),
        keymap.keycode_of(keysym) is Some <==> keymap.table().contains(keysym),
{
    let items = keymap.table();
    let width = keymap.width() as int;
    let wanted = set![keysym];
    assert forall|i: int| #[trigger] stands_first(items, keysym, i) implies keymap.keycode_of(
        keysym,
    ) == Some(keymap.min() + (i / width) % 256) by {
        assert forall|j: int| 0 <= j < i implies !wanted.contains(#[trigger] items[j]) by {
            assert(items[j] != keysym);
        }
        lemma_first_item_gives_first_row(items, width, wanted, i);
    }
    if items.contains(keysym) {
        let i = items.index_of(keysym);
        assert(wanted.contains(items[i]));
        let first = first_item(items, wanted, i);
        lemma_first_item(items, wanted, i);
        assert forall|j: int| 0 <= j < first implies #[trigger] items[j] != keysym by {
            assert(!wanted.contains(items[j]));
        }
        assert(stands_first(items, keysym, first));
        assert(bears(keymap, keysym, keymap.min() + (first / width) % 256));
    } else {
        assert forall|j: int| 0 <= j < items.len() implies !wanted.contains(
            #[trigger] items[j],
        ) by {
            assert(items.contains(items[j]));
        }
        lemma_no_item_gives_no_row(items, width, wanted);
        assert forall|code: int| !#[trigger] bears(keymap, keysym, code) by {
            if bears(keymap, keysym, code) {
                let i = choose|i: int|
                    {
                        &&& #[trigger] stands_first(items, keysym, i)
                        &&& code == keymap.min() + (i / width) % 256
                    };
                assert(items.contains(items[i]));
            }
        }
    }
}

/// A keymap holds what the server described: the first keycode, the width of
/// its rows and every keysym in its place.
pub proof fn law_keymaps_hold_what_was_read(
    min_keycode: u8,
    mapping: GetKeyboardMappingReply,
    keymap: Keymap,
)
    requires
        call_ensures(Keymap::read, (min_keycode, mapping), keymap),
    ensures
        keymap.min() == min_keycode,
        keymap.width() == mapping.keysyms_per_keycode as nat,
        keymap.table() == mapping.keysyms@,
{
}

/// The number of keycodes counts both ends.
pub proof fn law_keycodes_are_counted_with_both_ends(min: u8, max: u8, count: u8)
    requires
        min <= max,
        max - min < u8::MAX,
        call_ensures(keycode_count, (min, max), count),
    ensures
        count >= 1,
        min + count == max + 1,
{
}

/// The keycode of a keysym is that of the row where it stands first; a keysym
/// that stands nowhere is reported as missing, and only such a one.
pub proof fn law_keycodes_come_from_the_table(
    keymap: Keymap,
    keysym: u32,
    code: Result<u8, InputError>,
)
    requires
        keymap.searchable(keysym),
        call_ensures(Keymap::keycode, (&keymap, keysym), code),
    ensures
        forall|i: int| #[trigger]
            stands_first(keymap.table(), keysym, i) ==> (code matches Ok(found) && found
                == keymap.min() + (i / keymap.width() as int) % 256),
        code matches Ok(found) ==> bears(keymap, keysym, found as int),
        code matches Err(error) ==> error == (InputError::MissingKeysym { keysym })
            && !keymap.table().contains(keysym),
{
    lemma_bearer(keymap, keysym);
    assert forall|i: int| #[trigger]
        stands_first(keymap.table(), keysym, i) implies (code matches Ok(found) && found
        == keymap.min() + (i / keymap.width() as int) % 256) by {
        assert(bears(keymap, keysym, keymap.min() + (i / keymap.width() as int) % 256));
    }
    if let Some(found) = keymap.keycode_of(keysym) {
        lemma_first_row_is_not_negative(keymap.table(), keymap.width() as int, set![keysym]);
        assert(bears(keymap, keysym, found));
    }
}

/// A keysym can be searched for exactly where the rows have a width and the
/// keycode of the first row that bears it, if one does, fits in a byte.
pub proof fn law_searches_stay_within_the_keycodes(keymap: Keymap, keysym: u32, yes: bool)
    requires
        call_ensures(Keymap::is_searchable, (&keymap, keysym), yes),
    ensures
        yes == keymap.searchable(keysym),
        yes <==> keymap.width() > 0 && forall|code: int| #[trigger]
            bears(keymap, keysym, code) ==> code <= 255,
{
    if keymap.width() > 0 {
        lemma_bearer(keymap, keysym);
        if let Some(code) = keymap.keycode_of(keysym) {
            assert(bears(keymap, keysym, code));
        }
    }
}

/// On a keyboard with no more rows than keycodes, every keysym can be searched
/// for and every trigger resolved.
pub proof fn law_ordinary_keyboards_can_be_searched(keymap: Keymap, keysym: u32, key: Seq<char>)
    requires
        keymap.width() > 0,
        keymap.table().len() <= (256 - keymap.min()) * keymap.width(),
    ensures
        keymap.searchable(keysym),
        keymap.resolvable(key),
{
    let items = keymap.table();
    let width = keymap.width() as int;
    let rows = 256 - keymap.min();
    assert forall|symbol: u32| #[trigger] keymap.searchable(symbol) by {
        lemma_bearer(keymap, symbol);
        if let Some(code) = keymap.keycode_of(symbol) {
            assert(bears(keymap, symbol, code));
            let i = choose|i: int|
                {
                    &&& #[trigger] stands_first(items, symbol, i)
                    &&& code == keymap.min() + (i / width) % 256
                };
            assert(0 <= i / width < rows) by (nonlinear_arith)
                requires
                    width > 0,
                    0 <= i < rows * width,
            ;
        }
    }
}

/// The modifier is the row of the first entry of the modifier table that is a
/// key bearing one of the keysyms, as the bit of that number; without such an
/// entry, and so for no keysyms at all, there is none.
pub proof fn law_modifiers_come_from_the_tables(
    keymap: Keymap,
    keysyms: &[u32],
    mapping: &GetModifierMappingReply,
    mask: Result<u16, InputError>,
)
    requires
        forall|i: int| 0 <= i < keysyms@.len() ==> keymap.searchable(#[trigger] keysyms@[i]),
        1 <= mapping.keycodes@.len() / 8 <= u8::MAX,
        call_ensures(Keymap::modifier_for, (&keymap, keysyms, mapping), mask),
    ensures
        forall|j: int| #[trigger]
            is_first_entry(keymap, keysyms@, mapping.keycodes@, j) ==> mask == Ok::<
                u16,
                InputError,
            >(1u16 << ((j / (mapping.keycodes@.len() as int / 8)) as u16)),
        mask matches Ok(bits) ==> exists|j: int| #[trigger]
            is_first_entry(keymap, keysyms@, mapping.keycodes@, j) && bits == 1u16 << ((j / (
            mapping.keycodes@.len() as int / 8)) as u16),
        mask matches Err(error) ==> error is UnmappedModifier && forall|j: int|
            0 <= j < mapping.keycodes@.len() ==> !bears_one_of(
                keymap,
                keysyms@,
                #[trigger] mapping.keycodes@[j],
            ),
        keysyms@.len() == 0 ==> mask is Err,
{
    let codes = mapping.keycodes@;
    let width = codes.len() as int / 8;
    let wanted = keymap.keycodes_of(keysyms@);
    assert forall|code: u8| #[trigger] wanted.contains(code) <==> bears_one_of(
        keymap,
        keysyms@,
        code,
    ) by {
        assert forall|i: int| 0 <= i < keysyms@.len() implies (keymap.keycode_of(
            #[trigger] keysyms@[i],
        ) == Some(code as int) <==> bears(keymap, keysyms@[i], code as int)) by {
            assert(keymap.searchable(keysyms@[i]));
            lemma_bearer(keymap, keysyms@[i]);
        }
    }
    law_first_row_exists_with_an_item(codes, width, wanted);
    assert forall|j: int| #[trigger]
        is_first_entry(keymap, keysyms@, codes, j) implies mask == Ok::<u16, InputError>(
        1u16 << ((j / width) as u16),
    ) by {
        assert(wanted.contains(codes[j]));
        assert forall|earlier: int| 0 <= earlier < j implies !wanted.contains(
            #[trigger] codes[earlier],
        ) by {
            assert(!bears_one_of(keymap, keysyms@, codes[earlier]));
        }
        lemma_first_item_gives_first_row(codes, width, wanted, j);
    }
    if mask is Ok {
        let i = choose|i: int| 0 <= i < codes.len() && wanted.contains(#[trigger] codes[i]);
        lemma_first_item(codes, wanted, i);
        let first = first_item(codes, wanted, i);
        assert forall|earlier: int| 0 <= earlier < first implies !bears_one_of(
            keymap,
            keysyms@,
            #[trigger] codes[earlier],
        ) by {
            assert(!wanted.contains(codes[earlier]));
        }
        assert(is_first_entry(keymap, keysyms@, codes, first));
    }
}

/// A trigger can be resolved exactly where its keysym, if its name has one, can
/// be searched for, and that of Escape too once the trigger is found.
pub proof fn law_resolving_searches_for_both_keys(keymap: Keymap, key: &str, yes: bool)
    requires
        call_ensures(Keymap::is_resolvable, (&keymap, key), yes),
    ensures
        yes == keymap.resolvable(key@),
        yes <==> forall|symbol: u32| #[trigger]
            names(key@, symbol as int) ==> {
                &&& keymap.searchable(symbol)
                &&& keymap.table().contains(symbol) ==> keymap.searchable(0xff1b)
            },
{
    law_lookup_goes_by_the_names(key@);
    if let Lookup::Found(symbol) = lookup(lowercase(key@)) {
        assert(names(key@, symbol as int));
        if keymap.width() > 0 {
            lemma_bearer(keymap, symbol);
        }
    }
}

/// The watched keys are the ones that first bear the keysym of the name and
/// that of Escape. A name without a keysym is refused first, then a trigger and
/// then an Escape that stands nowhere in the table.
pub proof fn law_watched_keys_bear_their_keysyms(
    keymap: Keymap,
    key: &str,
    keys: Result<WatchedKeys, InputError>,
)
    requires
        keymap.resolvable(key@),
        call_ensures(Keymap::watched_keys, (&keymap, key), keys),
    ensures
        keys matches Ok(watched) ==> {
            &&& exists|symbol: u32| #[trigger]
                names(key@, symbol as int) && bears(keymap, symbol, watched.trigger as int)
            &&& bears(keymap, 0xff1b, watched.escape as int)
        },
        forall|symbol: u32| #[trigger]
            names(key@, symbol as int) ==> {
                &&& !keymap.table().contains(symbol) ==> keys == Err::<WatchedKeys, InputError>(
                    InputError::MissingKeysym { keysym: symbol },
                )
                &&& keymap.table().contains(symbol) && !keymap.table().contains(0xff1b) ==> keys
                    == Err::<WatchedKeys, InputError>(
                    InputError::MissingKeysym { keysym: 0xff1b },
                )
                &&& keymap.table().contains(symbol) && keymap.table().contains(0xff1b) ==> keys
                    is Ok
            },
        (forall|symbol: u32| !#[trigger] names(key@, symbol as int)) ==> (keys matches Err(error)
            && match error {
            InputError::UnsupportedFunctionKey { key: name } => in_either_case(key@[0], 'f')
                && key@.len() >= 2 && is_lowered(name@, key@),
            InputError::UnsupportedKey { key: name } => !(key@.len() >= 1 && in_either_case(
                key@[0],
                'f',
            )) && is_lowered(name@, key@),
            _ => false,
        }),
{
    law_lookup_goes_by_the_names(key@);
    if let Lookup::Found(symbol) = lookup(lowercase(key@)) {
        assert(names(key@, symbol as int));
        lemma_bearer(keymap, symbol);
        lemma_bearer(keymap, 0xff1b);
        lemma_first_row_is_not_negative(keymap.table(), keymap.width() as int, set![symbol]);
        lemma_first_row_is_not_negative(keymap.table(), keymap.width() as int, set![0xff1bu32]);
        if let Some(code) = keymap.keycode_of(symbol) {
            assert(bears(keymap, symbol, code));
        }
        if let Some(code) = keymap.keycode_of(0xff1b) {
            assert(bears(keymap, 0xff1b, code));
        }
    }
}

/// Num Lock is what was found or, where nothing was, bit four.
pub proof fn law_num_lock_is_found_or_bit_four(found: Option<u16>, mask: u16)
    requires
        call_ensures(num_lock_mask, (found,), mask),
    ensures
        found matches Some(bits) ==> mask == bits,
        found is None ==> mask == 16,
{
}

} // verus!
