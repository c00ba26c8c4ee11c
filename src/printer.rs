use vstd::prelude::*;
use vstd::string::*;
use colored::Colorize;

verus! {

/// The sequence that ends a styled span of text.
pub open spec fn reset_code() -> Seq<char> {
    seq!['\x1b', '[', '0', 'm']
}

/// `shown` is `text` as it may come out of colouring: unchanged, or between
/// a style sequence (without a line break) and the reset sequence.
pub open spec fn is_painting(text: Seq<char>, shown: Seq<char>) -> bool {
    shown == text || exists|style: Seq<char>|
        !style.contains('\n') && shown == style + text + reset_code()
}

/// How a line may be shown by a printer with the colour `color`: as it is
/// where there is none; otherwise as colouring may show it. A line without a
/// line break is shown without one.
pub open spec fn shows(color: Option<String>, line: Seq<char>, shown: Seq<char>) -> bool {
    &&& color is None ==> shown == line
    &&& color is Some && !line.contains('\x1b') ==> is_painting(line, shown)
    &&& !line.contains('\n') ==> !shown.contains('\n')
}

/// What one printed line looks like: the prefix, the line as shown, and a
/// line break.
pub open spec fn printed_line(prefix: Seq<char>, shown: Seq<char>) -> Seq<char> {
    prefix + shown + seq!['\n']
}

/// One whole line: it ends with its only line break.
pub open spec fn is_whole_line(piece: Seq<char>) -> bool {
    piece.len() >= 1 && piece.last() == '\n' && !piece.drop_last().contains('\n')
}

/// Relies on colored's `Colorize::color` for `&str` and the `Display` of the
/// `ColoredString` it returns. Where the environment turns colouring off the
/// text comes back as it is; otherwise it stands between a style sequence
/// and the reset sequence, with the style repeated after any reset sequence
/// inside the text. A style is made of `ESC [`, digits, `;` and `m`, so no
/// line break is added. An unknown colour name is taken as white.
#[verifier::external_body]
fn paint(text: &str, color: &str) -> (r: String)
    ensures
        !text@.contains('\x1b') ==> is_painting(text@, r@),
        !text@.contains('\n') ==> !r@.contains('\n'),
{
    text.color(color).to_string()
}

proof fn lemma_concat_contains(x: Seq<char>, y: Seq<char>, c: char)
    requires
        !x.contains(c),
        !y.contains(c),
    ensures
        !(x + y).contains(c),
{
    if (x + y).contains(c) {
        let i = choose|i: int| 0 <= i < (x + y).len() && (x + y)[i] == c;
        if i < x.len() {
            assert(x[i] == c);
        } else {
            assert(y[i - x.len()] == c);
        }
    }
}

/// Without a colour and without a prefix, a printed line is the line itself
/// followed by a line break: no styling, no label.
pub proof fn lemma_plain_line(line: Seq<char>, shown: Seq<char>)
    requires
        shows(None, line, shown),
    ensures
        printed_line(Seq::empty(), shown) == line.push('\n'),
{
    assert(printed_line(Seq::empty(), shown) =~= line.push('\n'));
}

/// A sink for the lines of one command. Each line is written with the
/// prefix before it and, where a colour is set, in that colour.
pub struct Printer {
    /// Everything written so far.
    pub writer: String,
    pub prefix: String,
    pub color: Option<String>,
}

impl Printer {
    /// A printer that writes after `writer`, with no prefix and no colour.
    pub fn new(writer: String) -> (r: Printer)
        ensures
            r.writer@ == writer@,
            r.prefix@ == Seq::<char>::empty(),
            r.color is None,
    {
        Printer { writer, prefix: String::new(), color: None }
    }

    pub fn set_prefix(self, prefix: String) -> (r: Self)
        ensures
            r.prefix@ == prefix@,
            r.writer@ == self.writer@,
            r.color == self.color,
    {
        let mut p = self;
        p.prefix = prefix;
        p
    }

    pub fn set_color(self, color: String) -> (r: Self)
        ensures
            r.color == Some(color),
            r.writer@ == self.writer@,
            r.prefix@ == self.prefix@,
    {
        let mut p = self;
        p.color = Some(color);
        p
    }

    /// Writes one line: the prefix, the line (coloured where a colour is
    /// set), and a line break, all in one piece.
    pub fn print(&mut self, line: &str)
        ensures
            final(self).prefix == old(self).prefix,
            final(self).color == old(self).color,
            exists|shown: Seq<char>|
                #[trigger] shows(old(self).color, line@, shown) && final(self).writer@ == old(self).writer@
                    + printed_line(old(self).prefix@, shown),
            !old(self).prefix@.contains('\n') && !line@.contains('\n') ==> is_whole_line(
                final(self).writer@.subrange(old(self).writer@.len() as int, final(self).writer@.len() as int),
            ),
    {
        let shown = match &self.color {
            Some(c) => paint(line, c.as_str()),
            None => String::from_str(line),
        };
        let ghost before = self.writer@;
        proof {
            reveal_strlit("\n");
        }
        self.writer.append(self.prefix.as_str());
        self.writer.append(shown.as_str());
        self.writer.append("\n");
        proof {
            let piece = printed_line(self.prefix@, shown@);
            assert(self.writer@ =~= before + piece);
            assert(self.writer@.subrange(before.len() as int, self.writer@.len() as int) =~= piece);
            assert(piece.drop_last() =~= self.prefix@ + shown@);
            assert(shows(self.color, line@, shown@));
            if !self.prefix@.contains('\n') && !line@.contains('\n') {
                lemma_concat_contains(self.prefix@, shown@, '\n');
            }
        }
    }

    /// Hands over what was written so far and starts again from nothing.
    pub fn take_output(&mut self) -> (r: String)
        ensures
            r@ == old(self).writer@,
            final(self).writer@ == Seq::<char>::empty(),
            final(self).prefix == old(self).prefix,
            final(self).color == old(self).color,
    {
        let out = self.writer.clone();
        self.writer = String::new();
        out
    }
}

} // verus!
