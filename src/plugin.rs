//! The plugin shell around the graph editor: its identity, its editor
//! window's bookkeeping, and how MIDI messages change the note that sounds.
use vstd::prelude::*;

verus! {

pub const PLUGIN_UNIQUE_ID: i32 = 48767;

/// Audio inputs of the plugin.
pub const PLUGIN_NUMBER_INPUTS: i32 = 2;

/// Audio outputs of the plugin.
pub const PLUGIN_NUMBER_OUTPUTS: i32 = 2;

/// Width of the editor window, in pixels.
pub const GUI_WIDTH: usize = 1000;

/// Height of the editor window, in pixels.
pub const GUI_HEIGHT: usize = 750;

/// MIDI status byte of a note-off message.
pub const MIDI_NOTE_OFF: u8 = 128;

/// MIDI status byte of a note-on message.
pub const MIDI_NOTE_ON: u8 = 144;

/// The characters of `s` that are not dots, in order.
pub open spec fn without_dots(s: Seq<char>) -> Seq<char>
    decreases s.len(),
{
    if s.len() == 0 {
        Seq::empty()
    } else if s.last() == '.' {
        without_dots(s.drop_last())
    } else {
        without_dots(s.drop_last()).push(s.last())
    }
}

/// `s` with zeros added at its end up to `width` characters.
pub open spec fn pad_zeros(s: Seq<char>, width: nat) -> Seq<char> {
    if s.len() >= width {
        s
    } else {
        s + Seq::new((width - s.len()) as nat, |_i: int| '0')
    }
}

/// The number that the decimal digits `s` write.
pub open spec fn decimal_value(s: Seq<char>) -> int
    decreases s.len(),
{
    if s.len() == 0 {
        0
    } else {
        decimal_value(s.drop_last()) * 10 + (s.last() as int - '0' as int)
    }
}

pub open spec fn is_digit(c: char) -> bool {
    '0' <= c <= '9'
}

/// A version written as digits and dots, such as `0.5.2`.
pub open spec fn is_version_text(s: Seq<char>) -> bool {
    forall|i: int| 0 <= i < s.len() ==> (#[trigger] s[i] == '.' || is_digit(s[i]))
}

/// The plugin version number of version text: its digits, dots left out,
/// padded with zeros at the end to four digits.
pub open spec fn vst_version(s: Seq<char>) -> int {
    decimal_value(pad_zeros(without_dots(s), 4))
}

proof fn lemma_without_dots_digits(s: Seq<char>)
    requires
        is_version_text(s),
    ensures
        forall|i: int| 0 <= i < without_dots(s).len() ==> is_digit(#[trigger] without_dots(s)[i]),
        without_dots(s).len() <= s.len(),
    decreases s.len(),
{
    if s.len() > 0 {
        assert(is_version_text(s.drop_last())) by {
            assert forall|i: int| 0 <= i < s.drop_last().len() implies (#[trigger] s.drop_last()[i]
                == '.' || is_digit(s.drop_last()[i])) by {
                assert(s.drop_last()[i] == s[i]);
            }
        }
        lemma_without_dots_digits(s.drop_last());
        assert(s[s.len() - 1] == '.' || is_digit(s[s.len() - 1]));
    }
}

/// Digits added at the end never make a number smaller.
proof fn lemma_decimal_grows(a: Seq<char>, b: Seq<char>)
    requires
        forall|i: int| 0 <= i < a.len() ==> is_digit(#[trigger] a[i]),
        forall|i: int| 0 <= i < b.len() ==> is_digit(#[trigger] b[i]),
    ensures
        0 <= decimal_value(a) <= decimal_value(a + b),
    decreases a.len() + b.len(),
{
    if b.len() > 0 {
        assert((a + b).drop_last() =~= a + b.drop_last());
        assert(is_digit(b[b.len() - 1]));
        lemma_decimal_grows(a, b.drop_last());
    } else {
        assert(a + b =~= a);
        if a.len() > 0 {
            assert(is_digit(a[a.len() - 1]));
            lemma_decimal_grows(a.drop_last(), Seq::empty());
            assert(a.drop_last() + Seq::<char>::empty() =~= a.drop_last());
        }
    }
}

/// The plugin version number of a crate version: `"0.5.2"` gives 520 and
/// `"1"` gives 1000.
pub fn crate_version_to_vst_format(crate_version: String) -> (r: i32)
    requires
        is_version_text(crate_version@),
        vst_version(crate_version@) <= i32::MAX,
    ensures
        r == vst_version(crate_version@),
{
    let text = crate_version.as_str();
    let ghost s = crate_version@;
    proof {
        assert(vstd::string::is_ascii(text)) by {
            assert forall|i: int| 0 <= i < s.len() implies (#[trigger] s[i]) as u32 <= 127 by {
                assert(s[i] == '.' || is_digit(s[i]));
            }
        }
        vstd::string::is_ascii_spec_bytes(text);
        lemma_without_dots_digits(s);
    }
    let bytes = text.as_bytes();
    let ghost digits = without_dots(s);
    let ghost target = pad_zeros(digits, 4);
    proof {
        assert forall|i: int| 0 <= i < target.len() implies is_digit(#[trigger] target[i]) by {
            if i >= digits.len() {
                assert(target[i] == '0');
            }
        }
        if digits.len() < 4 {
            assert(target =~= digits + Seq::new((4 - digits.len()) as nat, |_i: int| '0'));
        }
        assert forall|j: int| 0 <= j < digits.len() implies #[trigger] target[j] == digits[j] by {}
        lemma_decimal_grows(target, Seq::empty());
        assert(target + Seq::<char>::empty() =~= target);
    }
    let mut value: i64 = 0;
    let mut count: usize = 0;
    let mut i: usize = 0;
    while i < bytes.len()
        invariant
            bytes@ == Seq::new(s.len(), |j: int| s[j] as u8),
            is_version_text(s),
            i <= s.len(),
            digits == without_dots(s),
            target == pad_zeros(digits, 4),
            forall|j: int| 0 <= j < target.len() ==> is_digit(#[trigger] target[j]),
            decimal_value(target) <= i32::MAX,
            forall|j: int| 0 <= j < digits.len() ==> #[trigger] target[j] == digits[j],
            value == decimal_value(without_dots(s.subrange(0, i as int))),
            count == without_dots(s.subrange(0, i as int)).len(),
            count <= i,
        decreases s.len() - i,
    {
        let b = bytes[i];
        let ghost before = s.subrange(0, i as int);
        let ghost after = s.subrange(0, i + 1);
        proof {
            assert(after.drop_last() =~= before);
            assert(after.last() == s[i as int]);
            assert(b == s[i as int] as u8);
            assert(s[i as int] == '.' || is_digit(s[i as int]));
            lemma_without_dots_digits(after);
            lemma_prefix_of_digits(s, i as int + 1);
            let k = without_dots(after).len() as int;
            assert(without_dots(after) =~= target.subrange(0, k));
            lemma_decimal_grows(without_dots(after), target.subrange(k, target.len() as int));
            assert(without_dots(after) + target.subrange(k, target.len() as int) =~= target);
            let c = s[i as int];
            assert(b as int == c as int);
            if c != '.' {
                assert(without_dots(after) == without_dots(before).push(c));
                assert(without_dots(after).drop_last() =~= without_dots(before));
                assert(decimal_value(without_dots(after)) == decimal_value(without_dots(before)) * 10
                    + (c as int - '0' as int));
            } else {
                assert(without_dots(after) == without_dots(before));
            }
        }
        if b != 46u8 {
            value = value * 10 + (b - 48u8) as i64;
            count += 1;
        }
        i += 1;
    }
    proof {
        assert(s.subrange(0, s.len() as int) =~= s);
        assert(target.subrange(0, count as int) =~= digits);
    }
    while count < 4
        invariant
            count <= 4 || count == digits.len(),
            forall|j: int| 0 <= j < target.len() ==> is_digit(#[trigger] target[j]),
            decimal_value(target) <= i32::MAX,
            target == pad_zeros(digits, 4),
            count >= digits.len(),
            value == decimal_value(target.subrange(0, count as int)),
            count <= target.len(),
        decreases 4 - count,
    {
        proof {
            let next = target.subrange(0, count + 1);
            assert(next.drop_last() =~= target.subrange(0, count as int));
            assert(target[count as int] == '0');
            lemma_decimal_grows(next, target.subrange(count + 1, target.len() as int));
            assert(next + target.subrange(count + 1, target.len() as int) =~= target);
        }
        value = value * 10;
        count += 1;
    }
    proof {
        assert(target.subrange(0, count as int) =~= target);
        lemma_decimal_grows(target, Seq::empty());
        assert(target + Seq::<char>::empty() =~= target);
    }
    value as i32
}

/// The digits of a prefix of version text are a prefix of its digits.
proof fn lemma_prefix_of_digits(s: Seq<char>, n: int)
    requires
        0 <= n <= s.len(),
    ensures
        without_dots(s.subrange(0, n)).len() <= without_dots(s).len(),
        without_dots(s.subrange(0, n)) =~= without_dots(s).subrange(
            0,
            without_dots(s.subrange(0, n)).len() as int,
        ),
    decreases s.len() - n,
{
    if n < s.len() {
        lemma_prefix_of_digits(s, n + 1);
        let p = s.subrange(0, n + 1);
        assert(p.drop_last() =~= s.subrange(0, n));
    } else {
        assert(s.subrange(0, n) =~= s);
    }
}

/// What a MIDI message does to the note that sounds.
#[derive(Clone, Copy, Debug, PartialEq, Eq, Structural)]
pub enum NoteChange {
    /// Start sounding this note, its envelope from the beginning.
    Start(u8),
    /// Silence the note.
    Stop,
    /// Leave things as they are.
    Keep,
}

/// The effect of the MIDI message `data` while `current` sounds: a note-on
/// starts its note; a note-off stops the note only if it is the one that
/// sounds; anything else changes nothing.
pub fn process_midi_event(current: Option<u8>, data: [u8; 3]) -> (r: NoteChange)
    ensures
        data[0] == MIDI_NOTE_ON ==> r == NoteChange::Start(data[1]),
        data[0] == MIDI_NOTE_OFF ==> r == (if current == Some(data[1]) {
            NoteChange::Stop
        } else {
            NoteChange::Keep
        }),
        data[0] != MIDI_NOTE_ON && data[0] != MIDI_NOTE_OFF ==> r == NoteChange::Keep,
{
    if data[0] == MIDI_NOTE_OFF {
        match current {
            Some(n) if n == data[1] => NoteChange::Stop,
            _ => NoteChange::Keep,
        }
    } else if data[0] == MIDI_NOTE_ON {
        NoteChange::Start(data[1])
    } else {
        NoteChange::Keep
    }
}

/// The note that sounds after `change`.
pub fn apply_note_change(current: Option<u8>, change: NoteChange) -> (r: Option<u8>)
    ensures
        r == (match change {
            NoteChange::Start(n) => Some(n),
            NoteChange::Stop => None::<u8>,
            NoteChange::Keep => current,
        }),
{
    match change {
        NoteChange::Start(n) => Some(n),
        NoteChange::Stop => None,
        NoteChange::Keep => current,
    }
}

/// The editor window's bookkeeping.
#[derive(Clone, Copy, Debug, PartialEq, Eq, Structural)]
pub struct Gui {
    opened: bool,
}

impl Gui {
    pub fn new() -> (r: Self)
        ensures
            !r.is_open_spec(),
    {
        Gui { opened: false }
    }

    pub closed spec fn is_open_spec(&self) -> bool {
        self.opened
    }

    /// The window's size in pixels.
    pub fn size(&self) -> (r: (i32, i32))
        ensures
            r == (GUI_WIDTH as i32, GUI_HEIGHT as i32),
    {
        (GUI_WIDTH as i32, GUI_HEIGHT as i32)
    }

    /// The window's position within its parent.
    pub fn position(&self) -> (r: (i32, i32))
        ensures
            r == (0i32, 0i32),
    {
        (0, 0)
    }

    /// Records that the window was closed.
    pub fn close(&mut self)
        ensures
            !final(self).is_open_spec(),
    {
        self.opened = false;
    }

    pub fn is_open(&mut self) -> (r: bool)
        ensures
            r == old(self).is_open_spec(),
            *final(self) == *old(self),
    {
        self.opened
    }
}

/// The look of the graph widget in this plugin.
#[derive(Clone, Copy, Debug, PartialEq, Eq, Structural)]
pub struct AudioGraphStyle;

impl AudioGraphStyle {
    pub fn new() -> (r: Self)
        ensures
            r == AudioGraphStyle,
    {
        AudioGraphStyle
    }
}

} // verus!
