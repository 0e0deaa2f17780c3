//! Keys and mouse events of the terminal, their display forms, and the
//! parser of the key names used in configuration files.
use vstd::prelude::*;
use vstd::string::*;
use crate::text::{char_width, chars_eq, chars_of, len_utf8, lemma_str_len, push_char, utf8_len};

verus! {

broadcast use vstd::string::group_string_axioms;

/// A mouse button.
#[derive(Clone, Copy, Debug, PartialEq, Eq, Hash, Structural)]
pub enum MouseButton {
    /// The left mouse button.
    Left,
    /// The right mouse button.
    Right,
    /// The middle mouse button.
    Middle,
    /// The mouse wheel going up (seen with [`MouseEvent::Press`]).
    WheelUp,
    /// The mouse wheel going down (seen with [`MouseEvent::Press`]).
    WheelDown,
}

/// A mouse event; coordinates are one-based.
#[derive(Clone, Copy, Debug, PartialEq, Eq, Hash, Structural)]
pub enum MouseEvent {
    /// A button was pressed.
    Press(MouseButton, u16, u16),
    /// A button was released.
    Release(u16, u16),
    /// A button is held over the given coordinates.
    Hold(u16, u16),
}

/// A key press.
#[derive(Clone, Debug, PartialEq, Eq)]
pub enum Key {
    /// Backspace.
    Backspace,
    /// Left arrow.
    Left,
    /// Right arrow.
    Right,
    /// Up arrow.
    Up,
    /// Down arrow.
    Down,
    /// Home key.
    Home,
    /// End key.
    End,
    /// Page Up key.
    PageUp,
    /// Page Down key.
    PageDown,
    /// Delete key.
    Delete,
    /// Insert key.
    Insert,
    /// Function keys; only 1 through 12 are bound.
    F(u8),
    /// Normal character.
    Char(char),
    /// Alt modified character.
    Alt(char),
    /// Ctrl modified character; some keys cannot be modified with ctrl, for
    /// the terminal's sake.
    Ctrl(char),
    /// Null byte.
    Null,
    /// Esc key.
    Esc,
    /// A mouse event.
    Mouse(MouseEvent),
    /// Pasted text.
    Paste(String),
}

/// A [`Key`] over plain values.
pub enum KeyView {
    Backspace,
    Left,
    Right,
    Up,
    Down,
    Home,
    End,
    PageUp,
    PageDown,
    Delete,
    Insert,
    F(u8),
    Char(char),
    Alt(char),
    Ctrl(char),
    Null,
    Esc,
    Mouse(MouseEvent),
    Paste(Seq<char>),
}

impl View for Key {
    type V = KeyView;

    open spec fn view(&self) -> KeyView {
        match self {
            Key::Backspace => KeyView::Backspace,
            Key::Left => KeyView::Left,
            Key::Right => KeyView::Right,
            Key::Up => KeyView::Up,
            Key::Down => KeyView::Down,
            Key::Home => KeyView::Home,
            Key::End => KeyView::End,
            Key::PageUp => KeyView::PageUp,
            Key::PageDown => KeyView::PageDown,
            Key::Delete => KeyView::Delete,
            Key::Insert => KeyView::Insert,
            Key::F(n) => KeyView::F(*n),
            Key::Char(c) => KeyView::Char(*c),
            Key::Alt(c) => KeyView::Alt(*c),
            Key::Ctrl(c) => KeyView::Ctrl(*c),
            Key::Null => KeyView::Null,
            Key::Esc => KeyView::Esc,
            Key::Mouse(m) => KeyView::Mouse(*m),
            Key::Paste(s) => KeyView::Paste(s@),
        }
    }
}

/// The decimal digit `d`.
pub open spec fn digit_char(d: nat) -> char {
    if d == 0 {
        '0'
    } else if d == 1 {
        '1'
    } else if d == 2 {
        '2'
    } else if d == 3 {
        '3'
    } else if d == 4 {
        '4'
    } else if d == 5 {
        '5'
    } else if d == 6 {
        '6'
    } else if d == 7 {
        '7'
    } else if d == 8 {
        '8'
    } else {
        '9'
    }
}

/// The decimal numeral of `n`, without leading zeros.
pub open spec fn decimal(n: nat) -> Seq<char>
    decreases n,
{
    if n < 10 {
        seq![digit_char(n)]
    } else {
        decimal(n / 10).push(digit_char(n % 10))
    }
}

fn digit(d: u8) -> (c: char)
    requires
        d < 10,
    ensures
        c == digit_char(d as nat),
{
    if d == 0 {
        '0'
    } else if d == 1 {
        '1'
    } else if d == 2 {
        '2'
    } else if d == 3 {
        '3'
    } else if d == 4 {
        '4'
    } else if d == 5 {
        '5'
    } else if d == 6 {
        '6'
    } else if d == 7 {
        '7'
    } else if d == 8 {
        '8'
    } else {
        '9'
    }
}

/// Appends the decimal numeral of `n` to `s`.
pub fn push_decimal(s: &mut String, n: u16)
    ensures
        final(s)@ == old(s)@ + decimal(n as nat),
    decreases n,
{
    if n < 10 {
        push_char(s, digit(n as u8));
    } else {
        push_decimal(s, n / 10);
        push_char(s, digit((n % 10) as u8));
        assert(decimal(n as nat) == decimal((n / 10) as nat).push(digit_char((n % 10) as nat)));
    }
}

/// Appends the decimal numeral of `n` to `s`.
pub fn push_decimal_usize(s: &mut String, n: usize)
    ensures
        final(s)@ == old(s)@ + decimal(n as nat),
    decreases n,
{
    if n < 10 {
        push_char(s, digit(n as u8));
    } else {
        push_decimal_usize(s, n / 10);
        push_char(s, digit((n % 10) as u8));
        assert(decimal(n as nat) == decimal((n / 10) as nat).push(digit_char((n % 10) as nat)));
    }
}

/// How a key reads in the interface (`Display` of the key).
pub open spec fn key_display(k: KeyView) -> Seq<char> {
    match k {
        KeyView::F(n) => "F"@ + decimal(n as nat),
        KeyView::Char(c) => if c == ' ' {
            "Space"@
        } else if c == '\t' {
            "Tab"@
        } else if c == '\n' {
            "Enter"@
        } else {
            seq![c]
        },
        KeyView::Alt(c) => "M-"@.push(c),
        KeyView::Ctrl(c) => "C-"@.push(c),
        KeyView::Paste(_) => "Pasted buf"@,
        KeyView::Null => "Null byte"@,
        KeyView::Esc => "Esc"@,
        KeyView::Backspace => "Backspace"@,
        KeyView::Left => "Left"@,
        KeyView::Right => "Right"@,
        KeyView::Up => "Up"@,
        KeyView::Down => "Down"@,
        KeyView::Home => "Home"@,
        KeyView::End => "End"@,
        KeyView::PageUp => "PageUp"@,
        KeyView::PageDown => "PageDown"@,
        KeyView::Delete => "Delete"@,
        KeyView::Insert => "Insert"@,
        KeyView::Mouse(_) => "Mouse"@,
    }
}

/// The status-bar hint form of a key: whitespace characters by name and
/// other characters bare; every other key in angle brackets.
pub open spec fn key_hint(k: KeyView) -> Seq<char> {
    match k {
        KeyView::Char(c) => if c == ' ' {
            "<Space>"@
        } else if c == '\t' {
            "<Tab>"@
        } else if c == '\n' {
            "<Enter>"@
        } else {
            seq![c]
        },
        _ => "<"@ + key_display(k) + ">"@,
    }
}

impl Key {
    /// How the key reads in the interface, e.g. `Up`, `F5`, `C-c`, `Space`.
    pub fn to_string(&self) -> (r: String)
        ensures
            r@ == key_display(self@),
    {
        match self {
            Key::F(n) => {
                let mut s = String::from_str("F");
                push_decimal(&mut s, *n as u16);
                s
            },
            Key::Char(c) => {
                if *c == ' ' {
                    String::from_str("Space")
                } else if *c == '\t' {
                    String::from_str("Tab")
                } else if *c == '\n' {
                    String::from_str("Enter")
                } else {
                    let mut s = String::new();
                    push_char(&mut s, *c);
                    s
                }
            },
            Key::Alt(c) => {
                let mut s = String::from_str("M-");
                push_char(&mut s, *c);
                s
            },
            Key::Ctrl(c) => {
                let mut s = String::from_str("C-");
                push_char(&mut s, *c);
                s
            },
            Key::Paste(_) => String::from_str("Pasted buf"),
            Key::Null => String::from_str("Null byte"),
            Key::Esc => String::from_str("Esc"),
            Key::Backspace => String::from_str("Backspace"),
            Key::Left => String::from_str("Left"),
            Key::Right => String::from_str("Right"),
            Key::Up => String::from_str("Up"),
            Key::Down => String::from_str("Down"),
            Key::Home => String::from_str("Home"),
            Key::End => String::from_str("End"),
            Key::PageUp => String::from_str("PageUp"),
            Key::PageDown => String::from_str("PageDown"),
            Key::Delete => String::from_str("Delete"),
            Key::Insert => String::from_str("Insert"),
            Key::Mouse(_) => String::from_str("Mouse"),
        }
    }

    /// The status-bar hint form: placeholder keys (arrows, `Esc`, `F` keys,
    /// modifier combinations, `Enter`, `Tab`, `Space`) in angle brackets,
    /// such as `<Up>` or `<C-c>`; plain characters bare, as typed.
    pub fn hint_display(&self) -> (r: String)
        ensures
            r@ == key_hint(self@),
    {
        match self {
            Key::Char(c) => {
                if *c == ' ' {
                    String::from_str("<Space>")
                } else if *c == '\t' {
                    String::from_str("<Tab>")
                } else if *c == '\n' {
                    String::from_str("<Enter>")
                } else {
                    let mut s = String::new();
                    push_char(&mut s, *c);
                    s
                }
            },
            _ => {
                let mut s = String::from_str("<");
                let d = self.to_string();
                s.append(d.as_str());
                s.append(">");
                s
            },
        }
    }
}

/// Whether `c` is an ASCII digit.
pub open spec fn is_digit(c: char) -> bool {
    '0' <= c && c <= '9'
}

/// The value of a run of decimal digits.
pub open spec fn digits_value(d: Seq<char>) -> nat
    decreases d.len(),
{
    if d.len() == 0 {
        0
    } else {
        digits_value(d.drop_last()) * 10 + ((d.last() as u32) - ('0' as u32)) as nat
    }
}

/// `t` without one leading `+`.
pub open spec fn strip_plus(t: Seq<char>) -> Seq<char> {
    if t.len() > 0 && t[0] == '+' {
        t.drop_first()
    } else {
        t
    }
}

/// Whether every character of `d` is a decimal digit.
pub open spec fn all_digits(d: Seq<char>) -> bool {
    forall|i: int| 0 <= i < d.len() ==> #[trigger] is_digit(d[i])
}

/// `u8::from_str`: an optional `+`, then one or more decimal digits, of
/// value at most 255.
pub open spec fn parse_u8_spec(t: Seq<char>) -> Option<nat> {
    let d = strip_plus(t);
    if d.len() == 0 || !all_digits(d) {
        None
    } else if digits_value(d) > 255 {
        None
    } else {
        Some(digits_value(d))
    }
}

/// Whether `c` may follow `M-` or `C-` in a key name: a lowercase letter or
/// a digit (the name is ASCII there).
pub open spec fn modifiable(c: char) -> bool {
    ('a' <= c && c <= 'z') || is_digit(c)
}

/// The key named by `s` in a configuration file, or the message that says
/// why it names none.
pub open spec fn parse_key_spec(s: Seq<char>) -> Result<KeyView, Seq<char>> {
    if s == "Backspace"@ || s == "backspace"@ {
        Ok(KeyView::Backspace)
    } else if s == "Left"@ || s == "left"@ {
        Ok(KeyView::Left)
    } else if s == "Right"@ || s == "right"@ {
        Ok(KeyView::Right)
    } else if s == "Up"@ || s == "up"@ {
        Ok(KeyView::Up)
    } else if s == "Down"@ || s == "down"@ {
        Ok(KeyView::Down)
    } else if s == "Home"@ || s == "home"@ {
        Ok(KeyView::Home)
    } else if s == "End"@ || s == "end"@ {
        Ok(KeyView::End)
    } else if s == "PageUp"@ || s == "pageup"@ {
        Ok(KeyView::PageUp)
    } else if s == "PageDown"@ || s == "pagedown"@ {
        Ok(KeyView::PageDown)
    } else if s == "Delete"@ || s == "delete"@ {
        Ok(KeyView::Delete)
    } else if s == "Insert"@ || s == "insert"@ {
        Ok(KeyView::Insert)
    } else if s == "Enter"@ || s == "enter"@ {
        Ok(KeyView::Char('\n'))
    } else if s == "Tab"@ || s == "tab"@ {
        Ok(KeyView::Char('\t'))
    } else if s == "Esc"@ || s == "esc"@ {
        Ok(KeyView::Esc)
    } else if s.len() == 1 {
        Ok(KeyView::Char(s[0]))
    } else if s.len() > 0 && s[0] == 'F' && (utf8_len(s) == 2 || utf8_len(s) == 3) {
        let n = parse_u8_spec(s.drop_first());
        if n is Some && 1 <= n->0 <= 12 {
            Ok(KeyView::F(n->0 as u8))
        } else {
            Err("`"@ + s.drop_first() + "` should be a number 1 <= n <= 12 instead."@)
        }
    } else if s.len() >= 2 && s[0] == 'M' && s[1] == '-' && utf8_len(s) == 3 {
        if modifiable(s[2]) {
            Ok(KeyView::Alt(s[2]))
        } else {
            Err("`"@ + s.skip(2) + "` should be a lowercase and alphanumeric character instead."@)
        }
    } else if s.len() >= 2 && s[0] == 'C' && s[1] == '-' && utf8_len(s) == 3 {
        if modifiable(s[2]) {
            Ok(KeyView::Ctrl(s[2]))
        } else {
            Err("`"@ + s.skip(2) + "` should be a lowercase and alphanumeric character instead."@)
        }
    } else {
        Err(
            "Cannot derive shortcut from `"@ + s
                + "`. Please consult the manual for valid key inputs."@,
        )
    }
}

/// The view of a parse result.
pub open spec fn parse_view(r: Result<Key, String>) -> Result<KeyView, Seq<char>> {
    match r {
        Ok(k) => Ok(k@),
        Err(e) => Err(e@),
    }
}

/// A string of UTF-8 length one is one ASCII character.
proof fn lemma_utf8_len_one(s: Seq<char>)
    ensures
        utf8_len(s) == 1 <==> (s.len() == 1 && char_width(s[0]) == 1),
{
    if s.len() > 0 {
        crate::text::lemma_char_width(s[0]);
        let t = s.drop_first();
        if s.len() > 1 {
            crate::text::lemma_char_width(t[0]);
            assert(utf8_len(t) == char_width(t[0]) + utf8_len(t.drop_first()));
            assert(utf8_len(t) >= 1);
        } else {
            assert(t.len() == 0);
            assert(utf8_len(t) == 0);
        }
        assert(utf8_len(s) == char_width(s[0]) + utf8_len(t));
    }
}

/// `u8::from_str` on `t`.
fn parse_u8(t: &Vec<char>) -> (r: Option<u8>)
    ensures
        match r {
            Some(n) => parse_u8_spec(t@) == Some(n as nat),
            None => parse_u8_spec(t@) is None,
        },
{
    let start: usize = if t.len() > 0 && t[0] == '+' {
        1
    } else {
        0
    };
    let ghost d = strip_plus(t@);
    assert(d =~= t@.skip(start as int));
    if start == t.len() {
        assert(d.len() == 0);
        return None;
    }
    let mut value: u32 = 0;
    let mut i = start;
    proof {
        assert(d.take(0) =~= Seq::<char>::empty());
    }
    while i < t.len()
        invariant
            start < t.len(),
            start <= i <= t.len(),
            d == t@.skip(start as int),
            d == strip_plus(t@),
            forall|j: int| 0 <= j < i - start ==> is_digit(#[trigger] d[j]),
            value == digits_value(d.take(i - start)),
            value <= 255,
        decreases t.len() - i,
    {
        let c = t[i];
        assert(d[i - start] == c);
        if !('0' <= c && c <= '9') {
            assert(!is_digit(d[i - start]));
            return None;
        }
        let dv = (c as u32) - ('0' as u32);
        assert(d.take(i - start + 1).drop_last() =~= d.take(i - start));
        if value > 25 || value * 10 + dv > 255 {
            proof {
                if value > 25 {
                    assert(value * 10 + dv >= 260) by (nonlinear_arith)
                        requires
                            value > 25,
                    ;
                }
                assert(digits_value(d.take(i - start + 1)) == value * 10 + dv);
                if all_digits(d) {
                    lemma_digits_value_prefix(d, i - start + 1, d.len() as int);
                    assert(d.take(d.len() as int) =~= d);
                    assert(digits_value(d) > 255);
                }
            }
            return None;
        }
        value = value * 10 + dv;
        i = i + 1;
    }
    proof {
        assert(d.take(i - start) =~= d);
    }
    Some(value as u8)
}

/// A longer run of digits is worth no less.
proof fn lemma_digits_value_prefix(d: Seq<char>, i: int, j: int)
    requires
        0 <= i <= j <= d.len(),
        forall|k: int| 0 <= k < j ==> is_digit(#[trigger] d[k]),
    ensures
        digits_value(d.take(i)) <= digits_value(d.take(j)),
    decreases j - i,
{
    if i < j {
        lemma_digits_value_prefix(d, i, j - 1);
        assert(d.take(j).drop_last() =~= d.take(j - 1));
        assert(is_digit(d[j - 1]));
        let prev = digits_value(d.take(j - 1));
        assert(prev * 10 >= prev) by (nonlinear_arith)
            requires
                prev >= 0,
        ;
    }
}

fn is_word(cs: &Vec<char>, word: &str) -> (r: bool)
    ensures
        r == (cs@ == word@),
{
    let w = chars_of(word);
    chars_eq(cs, &w)
}

/// Parses one key name from its configuration form: `Up`, `F5`, `C-c`,
/// `M-x`, `Esc`, `Enter`, or a single character; the error says
/// why the name is not one.
pub fn parse_key(s: &str) -> (r: Result<Key, String>)
    ensures
        parse_view(r) == parse_key_spec(s@),
{
    let cs = chars_of(s);
    if is_word(&cs, "Backspace") || is_word(&cs, "backspace") {
        return Ok(Key::Backspace);
    }
    if is_word(&cs, "Left") || is_word(&cs, "left") {
        return Ok(Key::Left);
    }
    if is_word(&cs, "Right") || is_word(&cs, "right") {
        return Ok(Key::Right);
    }
    if is_word(&cs, "Up") || is_word(&cs, "up") {
        return Ok(Key::Up);
    }
    if is_word(&cs, "Down") || is_word(&cs, "down") {
        return Ok(Key::Down);
    }
    if is_word(&cs, "Home") || is_word(&cs, "home") {
        return Ok(Key::Home);
    }
    if is_word(&cs, "End") || is_word(&cs, "end") {
        return Ok(Key::End);
    }
    if is_word(&cs, "PageUp") || is_word(&cs, "pageup") {
        return Ok(Key::PageUp);
    }
    if is_word(&cs, "PageDown") || is_word(&cs, "pagedown") {
        return Ok(Key::PageDown);
    }
    if is_word(&cs, "Delete") || is_word(&cs, "delete") {
        return Ok(Key::Delete);
    }
    if is_word(&cs, "Insert") || is_word(&cs, "insert") {
        return Ok(Key::Insert);
    }
    if is_word(&cs, "Enter") || is_word(&cs, "enter") {
        return Ok(Key::Char('\n'));
    }
    if is_word(&cs, "Tab") || is_word(&cs, "tab") {
        return Ok(Key::Char('\t'));
    }
    if is_word(&cs, "Esc") || is_word(&cs, "esc") {
        return Ok(Key::Esc);
    }
    proof {
        lemma_str_len(s);
        lemma_utf8_len_one(s@);
    }
    let nbytes = s.as_bytes().len();
    let n = cs.len();
    if n == 1 {
        return Ok(Key::Char(cs[0]));
    }
    if n > 0 && cs[0] == 'F' && (nbytes == 2 || nbytes == 3) {
        let mut rest: Vec<char> = Vec::new();
        let mut k: usize = 1;
        while k < n
            invariant
                n == cs.len(),
                1 <= k <= n,
                rest@ == cs@.subrange(1, k as int),
            decreases n - k,
        {
            rest.push(cs[k]);
            assert(rest@ =~= cs@.subrange(1, k + 1));
            k = k + 1;
        }
        assert(rest@ =~= s@.drop_first());
        match parse_u8(&rest) {
            Some(v) => {
                if 1 <= v && v <= 12 {
                    return Ok(Key::F(v));
                }
            },
            None => {},
        }
        let tail = s.substring_char(1, n);
        assert(tail@ =~= s@.drop_first());
        let mut msg = String::from_str("`");
        msg.append(tail);
        msg.append("` should be a number 1 <= n <= 12 instead.");
        return Err(msg);
    }
    if n >= 2 && (cs[0] == 'M' || cs[0] == 'C') && cs[1] == '-' && nbytes == 3 {
        proof {
            crate::text::lemma_utf8_len_prefix(s@, 2);
            assert(s@.take(2).drop_first().drop_first() =~= Seq::<char>::empty());
            let p = s@.take(2);
            assert(p[0] == 'M' || p[0] == 'C');
            assert(p.drop_first()[0] == '-');
            assert(utf8_len(p.drop_first().drop_first()) == 0);
            assert(utf8_len(p.drop_first()) == char_width(p.drop_first()[0]) + utf8_len(
                p.drop_first().drop_first(),
            ));
            assert(utf8_len(p) == char_width(p[0]) + utf8_len(p.drop_first()));
            assert(utf8_len(p) == 2);
            lemma_utf8_len_one(s@.skip(2));
        }
        let c = cs[2];
        if ('a' <= c && c <= 'z') || ('0' <= c && c <= '9') {
            if cs[0] == 'M' {
                return Ok(Key::Alt(c));
            } else {
                return Ok(Key::Ctrl(c));
            }
        }
        let tail = s.substring_char(2, n);
        assert(tail@ =~= s@.skip(2));
        let mut msg = String::from_str("`");
        msg.append(tail);
        msg.append("` should be a lowercase and alphanumeric character instead.");
        return Err(msg);
    }
    let mut msg = String::from_str("Cannot derive shortcut from `");
    msg.append(s);
    msg.append("`. Please consult the manual for valid key inputs.");
    Err(msg)
}

/// The configuration form of a key: its display form, except that the
/// space key is the space character itself (`Space` does not parse back).
pub open spec fn config_spec(k: KeyView) -> Seq<char> {
    if k == KeyView::Char(' ') {
        seq![' ']
    } else {
        key_display(k)
    }
}

/// `s` with every ASCII capital made small.
pub open spec fn lowercase_ascii(s: Seq<char>) -> Seq<char> {
    s.map_values(|c: char| if 'A' <= c <= 'Z' { ((c as u32) + 32) as char } else { c })
}

/// The keys that have a name of their own: the arrows and the editing and
/// paging keys, `Esc`, and `Enter` and `Tab`.
pub open spec fn named_key(k: KeyView) -> bool {
    ||| k == KeyView::Backspace
    ||| k == KeyView::Left
    ||| k == KeyView::Right
    ||| k == KeyView::Up
    ||| k == KeyView::Down
    ||| k == KeyView::Home
    ||| k == KeyView::End
    ||| k == KeyView::PageUp
    ||| k == KeyView::PageDown
    ||| k == KeyView::Delete
    ||| k == KeyView::Insert
    ||| k == KeyView::Esc
    ||| k == KeyView::Char('\n')
    ||| k == KeyView::Char('\t')
}

/// A named key is read from its name written in lower case as well as
/// from its name as shown: both spellings name that same key.
pub proof fn law_lowercase_names(k: KeyView)
    requires
        named_key(k),
    ensures
        parse_key_spec(key_display(k)) == Ok::<KeyView, Seq<char>>(k),
        parse_key_spec(lowercase_ascii(key_display(k))) == Ok::<KeyView, Seq<char>>(k),
{
    reveal_strlit("Backspace");
    reveal_strlit("backspace");
    reveal_strlit("Left");
    reveal_strlit("left");
    reveal_strlit("Right");
    reveal_strlit("right");
    reveal_strlit("Up");
    reveal_strlit("up");
    reveal_strlit("Down");
    reveal_strlit("down");
    reveal_strlit("Home");
    reveal_strlit("home");
    reveal_strlit("End");
    reveal_strlit("end");
    reveal_strlit("PageUp");
    reveal_strlit("pageup");
    reveal_strlit("PageDown");
    reveal_strlit("pagedown");
    reveal_strlit("Delete");
    reveal_strlit("delete");
    reveal_strlit("Insert");
    reveal_strlit("insert");
    reveal_strlit("Esc");
    reveal_strlit("esc");
    reveal_strlit("Enter");
    reveal_strlit("enter");
    reveal_strlit("Tab");
    reveal_strlit("tab");
    let n = key_display(k);
    let l = lowercase_ascii(n);
    if k == KeyView::Backspace {
        assert(l =~= "backspace"@);
    }
    if k == KeyView::Left {
        assert(l =~= "left"@);
    }
    if k == KeyView::Right {
        assert(l =~= "right"@);
    }
    if k == KeyView::Up {
        assert(l =~= "up"@);
    }
    if k == KeyView::Down {
        assert(l =~= "down"@);
    }
    if k == KeyView::Home {
        assert(l =~= "home"@);
    }
    if k == KeyView::End {
        assert(l =~= "end"@);
    }
    if k == KeyView::PageUp {
        assert(l =~= "pageup"@);
    }
    if k == KeyView::PageDown {
        assert(l =~= "pagedown"@);
    }
    if k == KeyView::Delete {
        assert(l =~= "delete"@);
    }
    if k == KeyView::Insert {
        assert(l =~= "insert"@);
    }
    if k == KeyView::Esc {
        assert(l =~= "esc"@);
    }
    if k == KeyView::Char('\n') {
        assert(l =~= "enter"@);
    }
    if k == KeyView::Char('\t') {
        assert(l =~= "tab"@);
    }
}

/// The configuration string form of a single key, which [`parse_key`]
/// reads back.
pub fn key_to_config_string(k: &Key) -> (r: String)
    ensures
        r@ == config_spec(k@),
{
    match k {
        Key::Char(' ') => {
            let mut s = String::new();
            push_char(&mut s, ' ');
            s
        },
        _ => k.to_string(),
    }
}

/// The keys that have a configuration form: named keys, `F1` to `F12`,
/// ASCII characters, and `Alt`/`Ctrl` with a lowercase letter or a digit.
pub open spec fn configurable(k: KeyView) -> bool {
    match k {
        KeyView::F(n) => 1 <= n <= 12,
        KeyView::Char(c) => char_width(c) == 1,
        KeyView::Alt(c) => modifiable(c),
        KeyView::Ctrl(c) => modifiable(c),
        KeyView::Null => false,
        KeyView::Mouse(_) => false,
        KeyView::Paste(_) => false,
        _ => true,
    }
}

/// The numeral of a function key number reads back as that number.
proof fn lemma_parse_fn_number(n: u8)
    requires
        1 <= n <= 12,
    ensures
        decimal(n as nat).len() == 1 || decimal(n as nat).len() == 2,
        decimal(n as nat)[0] != '+',
        forall|i: int| 0 <= i < decimal(n as nat).len() ==> char_width(#[trigger] decimal(n as nat)[i]) == 1,
        parse_u8_spec(decimal(n as nat)) == Some(n as nat),
{
    let d = decimal(n as nat);
    if n < 10 {
        assert(d == seq![digit_char(n as nat)]);
        assert(d.drop_last() =~= Seq::<char>::empty());
        assert(digits_value(d.drop_last()) == 0);
        assert(all_digits(d));
    } else {
        assert(decimal((n / 10) as nat) == seq!['1']);
        assert(d == seq!['1', digit_char((n % 10) as nat)]);
        let init = d.drop_last();
        assert(init =~= seq!['1']);
        assert(init.drop_last() =~= Seq::<char>::empty());
        assert(digits_value(init.drop_last()) == 0);
        assert(digits_value(init) == 1);
        assert(all_digits(d));
    }
    assert(strip_plus(d) == d);
}

/// A key that has a configuration form parses back from it to itself.
#[verifier::spinoff_prover]
#[verifier::rlimit(40)]
pub proof fn law_config_string_parses_back(k: KeyView)
    requires
        configurable(k),
    ensures
        parse_key_spec(config_spec(k)) == Ok::<KeyView, Seq<char>>(k),
{
    reveal_strlit("Backspace");
    reveal_strlit("backspace");
    reveal_strlit("Left");
    reveal_strlit("left");
    reveal_strlit("Right");
    reveal_strlit("right");
    reveal_strlit("Up");
    reveal_strlit("up");
    reveal_strlit("Down");
    reveal_strlit("down");
    reveal_strlit("Home");
    reveal_strlit("home");
    reveal_strlit("End");
    reveal_strlit("end");
    reveal_strlit("PageUp");
    reveal_strlit("pageup");
    reveal_strlit("PageDown");
    reveal_strlit("pagedown");
    reveal_strlit("Delete");
    reveal_strlit("delete");
    reveal_strlit("Insert");
    reveal_strlit("insert");
    reveal_strlit("Enter");
    reveal_strlit("enter");
    reveal_strlit("Tab");
    reveal_strlit("tab");
    reveal_strlit("Esc");
    reveal_strlit("esc");
    reveal_strlit("Space");
    reveal_strlit("F");
    reveal_strlit("M-");
    reveal_strlit("C-");
    let s = config_spec(k);
    match k {
        KeyView::F(n) => {
            lemma_parse_fn_number(n);
            let d = decimal(n as nat);
            assert(s =~= seq!['F'] + d);
            assert(s.drop_first() =~= d);
            assert(s[0] == 'F');
            assert(utf8_len(s) == 1 + utf8_len(d));
            if d.len() == 1 {
                assert(d.drop_first().len() == 0);
                assert(utf8_len(d) == char_width(d[0]) + utf8_len(d.drop_first()));
            } else {
                assert(d.drop_first().drop_first().len() == 0);
                assert(utf8_len(d.drop_first()) == char_width(d.drop_first()[0]) + utf8_len(
                    d.drop_first().drop_first(),
                ));
                assert(utf8_len(d) == char_width(d[0]) + utf8_len(d.drop_first()));
            }
        },
        KeyView::Char(c) => {
            if c == ' ' {
                assert(s.drop_first().len() == 0);
                assert(utf8_len(s) == char_width(s[0]) + utf8_len(s.drop_first()));
            } else if c == '\t' || c == '\n' {
            } else {
                assert(s == seq![c]);
                assert(s.drop_first().len() == 0);
                assert(utf8_len(s) == char_width(s[0]) + utf8_len(s.drop_first()));
            }
        },
        KeyView::Alt(c) => {
            assert(s =~= seq!['M', '-', c]);
            assert(s.skip(2) =~= seq![c]);
            let t = s.drop_first();
            let u = t.drop_first();
            assert(u.drop_first().len() == 0);
            assert(utf8_len(u) == char_width(u[0]) + utf8_len(u.drop_first()));
            assert(utf8_len(t) == char_width(t[0]) + utf8_len(u));
            assert(utf8_len(s) == char_width(s[0]) + utf8_len(t));
        },
        KeyView::Ctrl(c) => {
            assert(s =~= seq!['C', '-', c]);
            let t = s.drop_first();
            let u = t.drop_first();
            assert(u.drop_first().len() == 0);
            assert(utf8_len(u) == char_width(u[0]) + utf8_len(u.drop_first()));
            assert(utf8_len(t) == char_width(t[0]) + utf8_len(u));
            assert(utf8_len(s) == char_width(s[0]) + utf8_len(t));
        },
        _ => {},
    }
}

} // verus!
