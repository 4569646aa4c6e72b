//! Extraction of the class names declared by a stylesheet.
//!
//! The parser walks the CSS text once, character by character. It collects
//! the identifier of every `.identifier` class selector found in a rule
//! prelude at the top level of the stylesheet, and one level deep inside the
//! block of an `@media` rule. Comments, quoted strings, the preludes of
//! at-rules and the bodies of rules are skipped, and malformed input never
//! fails: whatever does not look like a class selector is ignored.
//!
//! The whole walk is specified by the step function [`css_step`]; the set a
//! text yields is [`css_class_set`].

use vstd::prelude::*;
use crate::class_set::ClassSet;
use crate::errors::Error;
use crate::text::{to_chars, chars_to_string};

verus! {

/// Where the walk stands inside the lexical grammar.
#[derive(Debug, Clone, Copy, PartialEq, Eq, Structural)]
pub enum LexMode {
    /// Between tokens.
    Normal,
    /// Just saw `/`; a comment may follow.
    Slash,
    /// Inside a `/* ... */` comment.
    Comment,
    /// Inside a comment, just saw `*`.
    CommentStar,
    /// Inside a quoted string.
    InString,
    /// Inside a quoted string, just saw a backslash.
    StringEscape,
    /// Just saw `.`; a class identifier may follow.
    Dot,
    /// Reading the identifier of a class selector.
    Ident,
    /// Inside such an identifier, just saw a backslash.
    IdentEscape,
    /// Reading the keyword after `@`.
    AtKeyword,
}

/// The abstract state of the walk.
#[verifier::ext_equal]
pub struct ParserModel {
    /// Class names collected so far.
    pub classes: Set<Seq<char>>,
    /// Lexical position.
    pub mode: LexMode,
    /// The quote that opened the current string.
    pub quote: char,
    /// How many `{` blocks are open.
    pub depth: int,
    /// The block at depth 1 belongs to an `@media` rule, so class selectors
    /// directly inside it are collected.
    pub media_block: bool,
    /// The at-rule just read is `@media`, so the block about to open at the
    /// top level collects.
    pub pending_media: bool,
    /// Inside the prelude of an at-rule: nothing is collected there.
    pub in_at_prelude: bool,
    /// The identifier read so far after a `.`.
    pub cur: Seq<char>,
    /// The keyword read so far after an `@`.
    pub at_name: Seq<char>,
}

/// A character that may open a CSS identifier.
pub open spec fn is_ident_start(c: char) -> bool {
    ||| ('a' as u32) <= (c as u32) && (c as u32) <= ('z' as u32)
    ||| ('A' as u32) <= (c as u32) && (c as u32) <= ('Z' as u32)
    ||| c == '_'
    ||| c == '-'
    ||| (c as u32) > 0x7f
}

/// A character that may continue a CSS identifier.
pub open spec fn is_ident_char(c: char) -> bool {
    is_ident_start(c) || ('0' as u32) <= (c as u32) && (c as u32) <= ('9' as u32)
}

/// Class selectors are collected in rule preludes at the top level and
/// directly inside an `@media` block.
pub open spec fn model_collecting(s: ParserModel) -> bool {
    !s.in_at_prelude && (s.depth == 0 || (s.depth == 1 && s.media_block))
}

/// Closes the identifier being read: collects it where collecting applies.
pub open spec fn model_flush_ident(s: ParserModel) -> ParserModel {
    ParserModel {
        classes: if model_collecting(s) && s.cur.len() > 0 {
            s.classes.insert(s.cur)
        } else {
            s.classes
        },
        mode: LexMode::Normal,
        cur: Seq::empty(),
        ..s
    }
}

/// Closes the keyword of an at-rule: remembers whether a top-level `@media`
/// block is about to open.
pub open spec fn model_finish_at(s: ParserModel) -> ParserModel {
    ParserModel {
        mode: LexMode::Normal,
        pending_media: s.depth == 0 && s.at_name == seq!['m', 'e', 'd', 'i', 'a'],
        at_name: Seq::empty(),
        ..s
    }
}

/// One step taken from between tokens.
pub open spec fn css_normal(s: ParserModel, c: char) -> ParserModel {
    if c == '/' {
        ParserModel { mode: LexMode::Slash, ..s }
    } else if c == '"' || c == '\'' {
        ParserModel { mode: LexMode::InString, quote: c, ..s }
    } else if c == '.' {
        ParserModel { mode: LexMode::Dot, cur: Seq::empty(), ..s }
    } else if c == '@' {
        ParserModel {
            mode: LexMode::AtKeyword,
            at_name: Seq::empty(),
            in_at_prelude: true,
            ..s
        }
    } else if c == '{' {
        ParserModel {
            mode: LexMode::Normal,
            depth: s.depth + 1,
            media_block: if s.depth == 0 {
                s.pending_media
            } else {
                s.media_block
            },
            pending_media: false,
            in_at_prelude: false,
            ..s
        }
    } else if c == '}' {
        ParserModel {
            mode: LexMode::Normal,
            depth: if s.depth > 0 {
                s.depth - 1
            } else {
                0
            },
            media_block: s.depth > 1 && s.media_block,
            in_at_prelude: false,
            ..s
        }
    } else if c == ';' {
        ParserModel {
            mode: LexMode::Normal,
            pending_media: false,
            in_at_prelude: false,
            ..s
        }
    } else {
        ParserModel { mode: LexMode::Normal, ..s }
    }
}

/// One step of the walk.
pub open spec fn css_step(s: ParserModel, c: char) -> ParserModel {
    match s.mode {
        LexMode::Normal => css_normal(s, c),
        LexMode::Slash => if c == '*' {
            ParserModel { mode: LexMode::Comment, ..s }
        } else {
            css_normal(ParserModel { mode: LexMode::Normal, ..s }, c)
        },
        LexMode::Comment => if c == '*' {
            ParserModel { mode: LexMode::CommentStar, ..s }
        } else {
            s
        },
        LexMode::CommentStar => if c == '/' {
            ParserModel { mode: LexMode::Normal, ..s }
        } else if c == '*' {
            s
        } else {
            ParserModel { mode: LexMode::Comment, ..s }
        },
        LexMode::InString => if c == s.quote {
            ParserModel { mode: LexMode::Normal, ..s }
        } else if c == '\\' {
            ParserModel { mode: LexMode::StringEscape, ..s }
        } else {
            s
        },
        LexMode::StringEscape => ParserModel { mode: LexMode::InString, ..s },
        LexMode::Dot => if is_ident_start(c) {
            ParserModel { mode: LexMode::Ident, cur: seq![c], ..s }
        } else if c == '\\' {
            ParserModel { mode: LexMode::IdentEscape, cur: Seq::empty(), ..s }
        } else {
            css_normal(
                ParserModel { mode: LexMode::Normal, cur: Seq::empty(), ..s },
                c,
            )
        },
        LexMode::Ident => if is_ident_char(c) {
            ParserModel { cur: s.cur.push(c), ..s }
        } else if c == '\\' {
            ParserModel { mode: LexMode::IdentEscape, ..s }
        } else {
            css_normal(model_flush_ident(s), c)
        },
        LexMode::IdentEscape => ParserModel {
            mode: LexMode::Ident,
            cur: s.cur.push(c),
            ..s
        },
        LexMode::AtKeyword => if is_ident_char(c) {
            ParserModel { at_name: s.at_name.push(c), ..s }
        } else {
            css_normal(model_finish_at(s), c)
        },
    }
}

/// The state before any character was read.
pub open spec fn init_model() -> ParserModel {
    ParserModel {
        classes: Set::empty(),
        mode: LexMode::Normal,
        quote: '"',
        depth: 0,
        media_block: false,
        pending_media: false,
        in_at_prelude: false,
        cur: Seq::empty(),
        at_name: Seq::empty(),
    }
}

/// The state after reading all of `text`, started from `s`.
pub open spec fn css_run(s: ParserModel, text: Seq<char>) -> ParserModel
    decreases text.len(),
{
    if text.len() == 0 {
        s
    } else {
        css_step(css_run(s, text.drop_last()), text.last())
    }
}

/// Classes collected at the end of the text: an identifier still being read
/// when the text ends is closed and collected too.
pub open spec fn css_finish(s: ParserModel) -> Set<Seq<char>> {
    if (s.mode == LexMode::Ident || s.mode == LexMode::IdentEscape)
        && model_collecting(s) && s.cur.len() > 0 {
        s.classes.insert(s.cur)
    } else {
        s.classes
    }
}

/// The set of class names a stylesheet declares.
pub open spec fn css_class_set(text: Seq<char>) -> Set<Seq<char>> {
    css_finish(css_run(init_model(), text))
}

/// One step never opens more than one block.
pub proof fn lemma_step_depth(s: ParserModel, c: char)
    requires
        s.depth >= 0,
    ensures
        css_step(s, c).depth <= s.depth + 1,
        css_step(s, c).depth >= 0,
{
    match s.mode {
        LexMode::Normal => {
            assert(css_normal(s, c).depth <= s.depth + 1);
        }
        LexMode::Slash => {
            let t = ParserModel { mode: LexMode::Normal, ..s };
            assert(css_normal(t, c).depth <= s.depth + 1);
        }
        LexMode::Dot => {
            let t = ParserModel { mode: LexMode::Normal, cur: Seq::empty(), ..s };
            assert(css_normal(t, c).depth <= s.depth + 1);
        }
        LexMode::Ident => {
            assert(css_normal(model_flush_ident(s), c).depth <= s.depth + 1);
        }
        LexMode::AtKeyword => {
            assert(css_normal(model_finish_at(s), c).depth <= s.depth + 1);
        }
        _ => {}
    }
}

/// Whether `c` may open a CSS identifier.
pub fn ident_start(c: char) -> (r: bool)
    ensures
        r == is_ident_start(c),
{
    let u = c as u32;
    (97 <= u && u <= 122) || (65 <= u && u <= 90) || c == '_' || c == '-' || u > 0x7f
}

/// Whether `c` may continue a CSS identifier.
pub fn ident_char(c: char) -> (r: bool)
    ensures
        r == is_ident_char(c),
{
    let u = c as u32;
    ident_start(c) || (48 <= u && u <= 57)
}

/// Walks CSS text and collects the declared class names.
pub struct ClassesParser {
    found: ClassSet,
    mode: LexMode,
    quote: char,
    depth: usize,
    media_block: bool,
    pending_media: bool,
    in_at_prelude: bool,
    cur: Vec<char>,
    at_name: Vec<char>,
}

impl View for ClassesParser {
    type V = ParserModel;

    closed spec fn view(&self) -> ParserModel {
        ParserModel {
            classes: self.found@,
            mode: self.mode,
            quote: self.quote,
            depth: self.depth as int,
            media_block: self.media_block,
            pending_media: self.pending_media,
            in_at_prelude: self.in_at_prelude,
            cur: self.cur@,
            at_name: self.at_name@,
        }
    }
}

impl ClassesParser {
    /// The collected classes are free of duplicates.
    pub closed spec fn wf(&self) -> bool {
        self.found.wf()
    }

    pub fn new() -> (r: ClassesParser)
        ensures
            r.wf(),
            r@ == init_model(),
    {
        let r = ClassesParser {
            found: ClassSet::new(),
            mode: LexMode::Normal,
            quote: '"',
            depth: 0,
            media_block: false,
            pending_media: false,
            in_at_prelude: false,
            cur: Vec::new(),
            at_name: Vec::new(),
        };
        proof {
            assert(r@ =~= init_model());
        }
        r
    }

    /// Whether the keyword read after `@` is exactly `media`.
    fn at_name_is_media(&self) -> (r: bool)
        ensures
            r == (self@.at_name == seq!['m', 'e', 'd', 'i', 'a']),
    {
        if self.at_name.len() != 5 {
            return false;
        }
        let r = self.at_name[0] == 'm' && self.at_name[1] == 'e'
            && self.at_name[2] == 'd' && self.at_name[3] == 'i'
            && self.at_name[4] == 'a';
        proof {
            if r {
                assert(self.at_name@ =~= seq!['m', 'e', 'd', 'i', 'a']);
            }
        }
        r
    }

    /// Whether class selectors are collected at the current position.
    fn collecting(&self) -> (r: bool)
        ensures
            r == model_collecting(self@),
    {
        !self.in_at_prelude && (self.depth == 0 || (self.depth == 1 && self.media_block))
    }

    /// Closes the identifier being read, collecting it where that applies.
    fn flush_ident(&mut self)
        requires
            old(self).wf(),
        ensures
            final(self).wf(),
            final(self)@ == model_flush_ident(old(self)@),
    {
        if self.collecting() && self.cur.len() > 0 {
            let name = chars_to_string(&self.cur);
            self.found.insert(name);
        }
        self.cur = Vec::new();
        self.mode = LexMode::Normal;
        proof {
            assert(self@ =~= model_flush_ident(old(self)@));
        }
    }

    /// Closes the keyword of an at-rule.
    fn finish_at(&mut self)
        requires
            old(self).wf(),
        ensures
            final(self).wf(),
            final(self)@ == model_finish_at(old(self)@),
    {
        self.pending_media = self.depth == 0 && self.at_name_is_media();
        self.at_name = Vec::new();
        self.mode = LexMode::Normal;
        proof {
            assert(self@ =~= model_finish_at(old(self)@));
        }
    }

    /// One step taken from between tokens.
    fn normal_step(&mut self, c: char)
        requires
            old(self).wf(),
            old(self)@.mode == LexMode::Normal,
            old(self)@.depth < usize::MAX,
        ensures
            final(self).wf(),
            final(self)@ == css_normal(old(self)@, c),
    {
        if c == '/' {
            self.mode = LexMode::Slash;
        } else if c == '"' || c == '\'' {
            self.mode = LexMode::InString;
            self.quote = c;
        } else if c == '.' {
            self.mode = LexMode::Dot;
            self.cur = Vec::new();
        } else if c == '@' {
            self.mode = LexMode::AtKeyword;
            self.at_name = Vec::new();
            self.in_at_prelude = true;
        } else if c == '{' {
            if self.depth == 0 {
                self.media_block = self.pending_media;
            }
            self.depth = self.depth + 1;
            self.pending_media = false;
            self.in_at_prelude = false;
            self.mode = LexMode::Normal;
        } else if c == '}' {
            if self.depth > 0 {
                self.depth = self.depth - 1;
            }
            if self.depth == 0 {
                self.media_block = false;
            }
            self.in_at_prelude = false;
            self.mode = LexMode::Normal;
        } else if c == ';' {
            self.pending_media = false;
            self.in_at_prelude = false;
            self.mode = LexMode::Normal;
        } else {
            self.mode = LexMode::Normal;
        }
        proof {
            assert(self@ =~= css_normal(old(self)@, c));
        }
    }

    /// Feeds one character of CSS text to the walk.
    pub fn step(&mut self, c: char)
        requires
            old(self).wf(),
            old(self)@.depth < usize::MAX,
        ensures
            final(self).wf(),
            final(self)@ == css_step(old(self)@, c),
    {
        match self.mode {
            LexMode::Normal => {
                self.normal_step(c);
            }
            LexMode::Slash => {
                if c == '*' {
                    self.mode = LexMode::Comment;
                } else {
                    self.mode = LexMode::Normal;
                    self.normal_step(c);
                }
            }
            LexMode::Comment => {
                if c == '*' {
                    self.mode = LexMode::CommentStar;
                }
            }
            LexMode::CommentStar => {
                if c == '/' {
                    self.mode = LexMode::Normal;
                } else if c != '*' {
                    self.mode = LexMode::Comment;
                }
            }
            LexMode::InString => {
                if c == self.quote {
                    self.mode = LexMode::Normal;
                } else if c == '\\' {
                    self.mode = LexMode::StringEscape;
                }
            }
            LexMode::StringEscape => {
                self.mode = LexMode::InString;
            }
            LexMode::Dot => {
                if ident_start(c) {
                    self.mode = LexMode::Ident;
                    let mut one: Vec<char> = Vec::new();
                    one.push(c);
                    self.cur = one;
                    proof {
                        assert(self@.cur =~= seq![c]);
                    }
                } else if c == '\\' {
                    self.mode = LexMode::IdentEscape;
                    self.cur = Vec::new();
                } else {
                    self.mode = LexMode::Normal;
                    self.cur = Vec::new();
                    self.normal_step(c);
                }
            }
            LexMode::Ident => {
                if ident_char(c) {
                    self.cur.push(c);
                } else if c == '\\' {
                    self.mode = LexMode::IdentEscape;
                } else {
                    self.flush_ident();
                    self.normal_step(c);
                }
            }
            LexMode::IdentEscape => {
                self.mode = LexMode::Ident;
                self.cur.push(c);
            }
            LexMode::AtKeyword => {
                if ident_char(c) {
                    self.at_name.push(c);
                } else {
                    self.finish_at();
                    self.normal_step(c);
                }
            }
        }
        proof {
            assert(self@ =~= css_step(old(self)@, c));
        }
    }

    /// Ends the walk and hands out the collected classes.
    pub fn finish(self) -> (r: ClassSet)
        requires
            self.wf(),
        ensures
            r.wf(),
            r@ == css_finish(self@),
    {
        let collect_tail = (matches!(self.mode, LexMode::Ident)
            || matches!(self.mode, LexMode::IdentEscape)) && self.collecting()
            && self.cur.len() > 0;
        let ClassesParser { mut found, cur, .. } = self;
        if collect_tail {
            let name = chars_to_string(&cur);
            found.insert(name);
        }
        found
    }
}

/// Extracts the set of class names a stylesheet declares.
///
/// CSS text with no class selector at all is rejected: an empty accepted set
/// would make every scanned class unknown, so it is reported as a
/// configuration failure instead.
pub fn extract_classes_from_text(css_text: &str) -> (r: Result<ClassSet, Error>)
    ensures
        match r {
            Ok(classes) => {
                &&& classes.wf()
                &&& classes@ == css_class_set(css_text@)
                &&& !css_class_set(css_text@).is_empty()
            },
            Err(e) => {
                &&& e == Error::NoCssClassesFound
                &&& css_class_set(css_text@).is_empty()
            },
        },
{
    let chars = to_chars(css_text);
    let n = chars.len();
    let mut parser = ClassesParser::new();
    let mut i: usize = 0;
    while i < n
        invariant
            n == chars@.len(),
            chars@ == css_text@,
            0 <= i <= n,
            parser.wf(),
            parser@ == css_run(init_model(), css_text@.take(i as int)),
            parser@.depth <= i,
        decreases n - i,
    {
        let ghost before = parser@;
        parser.step(chars[i]);
        proof {
            let t = css_text@.take(i + 1 as int);
            assert(t.drop_last() =~= css_text@.take(i as int));
            assert(t.last() == css_text@[i as int]);
            lemma_step_depth(before, css_text@[i as int]);
        }
        i += 1;
    }
    proof {
        assert(css_text@.take(n as int) =~= css_text@);
    }
    let classes = parser.finish();
    if classes.is_empty() {
        Err(Error::NoCssClassesFound)
    } else {
        Ok(classes)
    }
}

} // verus!
