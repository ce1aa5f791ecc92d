//! Commands for a remote POSIX shell, and the quoting that keeps each path one
//! word of them.

use vstd::prelude::*;
use vstd::string::*;

use crate::path::parent_of;
use crate::path::remote_parent;
use crate::path::temporary_of;
use crate::path::temporary_path;
use crate::text::chars_of;

verus! {

/// `value` with each single quote written as `'"'"'`: the quoted text is
/// closed, the quote stands in double quotes, and the quoted text goes on.
pub open spec fn escaped(value: Seq<char>) -> Seq<char>
    decreases value.len(),
{
    if value.len() == 0 {
        Seq::empty()
    } else if value.last() == '\'' {
        escaped(value.drop_last()) + seq!['\'', '"', '\'', '"', '\'']
    } else {
        escaped(value.drop_last()).push(value.last())
    }
}

/// `value` as one word of a shell command.
pub open spec fn quoted(value: Seq<char>) -> Seq<char> {
    (seq!['\''] + escaped(value)).push('\'')
}

/// Quotes a text for a POSIX shell, using single quotes.
pub fn shell_quote(value: &str) -> (res: String)
    ensures
        res@ == quoted(value@),
{
    let chars = chars_of(value);
    let mut text = String::new();
    text.push('\'');
    let mut done: usize = 0;
    assert(text@ == seq!['\''] + escaped(chars@.take(0)));
    while done < chars.len()
        invariant
            done <= chars@.len(),
            chars@ == value@,
            text@ == seq!['\''] + escaped(chars@.take(done as int)),
        decreases chars@.len() - done,
    {
        let ghost before = text@;
        assert(chars@.take(done + 1).drop_last() == chars@.take(done as int));
        if chars[done] == '\'' {
            text.push('\'');
            text.push('"');
            text.push('\'');
            text.push('"');
            text.push('\'');
            assert(text@ == before + seq!['\'', '"', '\'', '"', '\'']);
        } else {
            text.push(chars[done]);
        }
        assert(text@ == seq!['\''] + escaped(chars@.take(done + 1)));
        done += 1;
    }
    assert(chars@.take(done as int) == value@);
    text.push('\'');
    text
}

/// The command that prints a file, or leaves with status 66 if there is no
/// regular file of that name.
pub open spec fn read_command_text(path: Seq<char>) -> Seq<char> {
    "if [ -f "@ + quoted(path) + " ]; then cat < "@ + quoted(path) + "; else exit 66; fi"@
}

/// The command that prints the file `path`. A redirection is used in place of
/// an argument, so that it does not matter whether the remote `cat` knows `--`.
pub fn read_command(path: &str) -> (res: String)
    ensures
        res@ == read_command_text(path@),
{
    let quoted_path = shell_quote(path);
    let mut text = "if [ -f ".to_owned();
    text.append(quoted_path.as_str());
    text.append(" ]; then cat < ");
    text.append(quoted_path.as_str());
    text.append("; else exit 66; fi");
    text
}

/// The command that makes the directory of `dest`, or does nothing where `dest`
/// names none.
pub open spec fn parent_command_text(dest: Seq<char>) -> Seq<char> {
    match parent_of(dest) {
        Some(parent) => "mkdir -p "@ + quoted(parent),
        None => ":"@,
    }
}

/// The command that stores its input under the temporary name of `dest`. The
/// file is not created if its directory cannot be.
pub open spec fn upload_command_text(dest: Seq<char>) -> Seq<char> {
    parent_command_text(dest) + " && cat > "@ + quoted(temporary_of(dest))
}

/// The command that stores its input under the temporary name of `dest`.
pub fn upload_command(dest: &str) -> (res: String)
    ensures
        res@ == upload_command_text(dest@),
{
    let mut text = match remote_parent(dest) {
        Some(parent) => "mkdir -p ".to_owned().concat(shell_quote(parent).as_str()),
        None => ":".to_owned(),
    };
    text.append(" && cat > ");
    let temporary = temporary_path(dest);
    text.append(shell_quote(temporary.as_str()).as_str());
    text
}

/// The command that puts the temporary file in the place of `dest`.
pub open spec fn move_command_text(dest: Seq<char>) -> Seq<char> {
    "mv -f "@ + quoted(temporary_of(dest)) + " "@ + quoted(dest)
}

/// The command that puts the temporary file in the place of `dest`.
pub fn move_command(dest: &str) -> (res: String)
    ensures
        res@ == move_command_text(dest@),
{
    let temporary = temporary_path(dest);
    let mut text = "mv -f ".to_owned();
    text.append(shell_quote(temporary.as_str()).as_str());
    text.append(" ");
    text.append(shell_quote(dest).as_str());
    text
}

/// How a shell reads the next character of a command.
pub enum Quoting {
    Bare,
    Single,
    Double,
}

/// A token of a shell command: a word, its quotes removed, or one character of
/// an operator.
pub enum Token {
    Word(Seq<char>),
    Operator(char),
}

/// A shell command read so far: the tokens before, the word that is being read,
/// the quotes around it, and whether everything so far stood for itself. What
/// the shell would expand is outside this reading.
pub struct Reading {
    pub tokens: Seq<Token>,
    pub word: Option<Seq<char>>,
    pub quoting: Quoting,
    pub literal: bool,
}

impl Reading {
    /// Nothing read yet.
    pub open spec fn start() -> Reading {
        Reading { tokens: Seq::empty(), word: None, quoting: Quoting::Bare, literal: true }
    }

    /// The word read so far, which is empty where none has begun.
    pub open spec fn word_so_far(self) -> Seq<char> {
        match self.word {
            Some(word) => word,
            None => Seq::empty(),
        }
    }

    /// The reading after the word that is being read has ended.
    pub open spec fn end_word(self) -> Reading {
        match self.word {
            Some(word) => Reading { tokens: self.tokens.push(Token::Word(word)), word: None, ..self },
            None => self,
        }
    }

    /// The reading after one more character of the word.
    pub open spec fn extend(self, c: char) -> Reading {
        Reading { word: Some(self.word_so_far().push(c)), ..self }
    }

    /// The reading after a quote has been opened or closed.
    pub open spec fn quote(self, quoting: Quoting) -> Reading {
        Reading { word: Some(self.word_so_far()), quoting, ..self }
    }

    /// The reading after one more character of the command, by the rules of the
    /// POSIX shell for quotes, blanks and operators.
    pub open spec fn step(self, c: char) -> Reading {
        match self.quoting {
            Quoting::Single => if c == '\'' {
                self.quote(Quoting::Bare)
            } else {
                self.extend(c)
            },
            Quoting::Double => if c == '"' {
                self.quote(Quoting::Bare)
            } else if c == '$' || c == '`' || c == '\\' {
                Reading { literal: false, ..self }
            } else {
                self.extend(c)
            },
            Quoting::Bare => if c == ' ' {
                self.end_word()
            } else if c == '\'' {
                self.quote(Quoting::Single)
            } else if c == '"' {
                self.quote(Quoting::Double)
            } else if c == ';' || c == '&' || c == '<' || c == '>' {
                let ended = self.end_word();
                Reading { tokens: ended.tokens.push(Token::Operator(c)), ..ended }
            } else if is_ordinary(c) {
                self.extend(c)
            } else {
                Reading { literal: false, ..self }
            },
        }
    }

    /// The reading after `text`.
    pub open spec fn read(self, text: Seq<char>) -> Reading
        decreases text.len(),
    {
        if text.len() == 0 {
            self
        } else {
            self.read(text.drop_last()).step(text.last())
        }
    }

    /// Ready for the next token, outside all quotes.
    pub open spec fn between_words(self) -> bool {
        self.word is None && self.quoting is Bare
    }
}

/// The bare characters that stand for themselves in a word. A bracket does so
/// where it is a word of its own.
pub open spec fn is_ordinary(c: char) -> bool {
    ||| 'a' <= c <= 'z'
    ||| '0' <= c <= '9'
    ||| c == '-'
    ||| c == ':'
    ||| c == '['
    ||| c == ']'
}

/// The tokens of a command whose quotes are all closed and in which everything
/// stands for itself.
pub open spec fn tokens(command: Seq<char>) -> Option<Seq<Token>> {
    let reading = Reading::start().read(command).end_word();
    if reading.literal && reading.quoting is Bare {
        Some(reading.tokens)
    } else {
        None
    }
}

proof fn read_concat(from: Reading, a: Seq<char>, b: Seq<char>)
    ensures
        from.read(a + b) == from.read(a).read(b),
    decreases b.len(),
{
    if b.len() == 0 {
        assert(a + b == a);
    } else {
        read_concat(from, a, b.drop_last());
        assert((a + b).drop_last() == a + b.drop_last());
        assert((a + b).last() == b.last());
    }
}

proof fn read_next(from: Reading, text: Seq<char>, k: int)
    requires
        0 <= k < text.len(),
    ensures
        from.read(text.take(k + 1)) == from.read(text.take(k)).step(text[k]),
{
    assert(text.take(k + 1).drop_last() == text.take(k));
}

proof fn read_push(from: Reading, text: Seq<char>, c: char)
    ensures
        from.read(text.push(c)) == from.read(text).step(c),
{
    assert(text.push(c).drop_last() == text);
}

proof fn read_escaped(from: Reading, value: Seq<char>)
    requires
        from.quoting is Single,
        from.word is Some,
    ensures
        from.read(escaped(value)) == (Reading { word: Some(from.word->0 + value), ..from }),
    decreases value.len(),
{
    if value.len() == 0 {
        assert(from.word->0 + value == from.word->0);
    } else {
        let shorter = value.drop_last();
        read_escaped(from, shorter);
        let inside = from.read(escaped(shorter));
        let word = from.word->0 + shorter;
        assert(word.push(value.last()) == from.word->0 + value);
        if value.last() == '\'' {
            let written = seq!['\'', '"', '\'', '"', '\''];
            read_concat(from, escaped(shorter), written);
            read_next(inside, written, 0);
            read_next(inside, written, 1);
            read_next(inside, written, 2);
            read_next(inside, written, 3);
            read_next(inside, written, 4);
            assert(written.take(5) == written);
            assert(written.take(0) == Seq::<char>::empty());
        } else {
            read_push(from, escaped(shorter), value.last());
        }
    }
}

/// A quoted text, read where a shell reads bare characters, adds exactly that
/// text to the word that is being read: whatever characters it holds, none of
/// them is taken as a quote, a blank, an operator or an expansion.
pub proof fn quoted_text_is_read_back(from: Reading, value: Seq<char>)
    requires
        from.quoting is Bare,
    ensures
        from.read(quoted(value)) == (Reading { word: Some(from.word_so_far() + value), ..from }),
{
    let open = seq!['\''];
    read_next(from, open, 0);
    assert(open.take(1) == open);
    assert(open.take(0) == Seq::<char>::empty());
    let inside = from.read(open);
    read_escaped(inside, value);
    read_concat(from, open, escaped(value));
    read_push(from, open + escaped(value), '\'');
}

/// What `shell_quote` gives is one word to a shell, and that word is the text
/// that was quoted.
pub proof fn quoted_text_is_one_word(value: Seq<char>)
    ensures
        tokens(quoted(value)) == Some(seq![Token::Word(value)]),
{
    quoted_text_is_read_back(Reading::start(), value);
    assert(Seq::<char>::empty() + value == value);
    assert(tokens(quoted(value))->0 == seq![Token::Word(value)]);
}

/// Different texts are quoted differently.
pub proof fn quoting_is_injective(a: Seq<char>, b: Seq<char>)
    requires
        quoted(a) == quoted(b),
    ensures
        a == b,
{
    quoted_text_is_one_word(a);
    quoted_text_is_one_word(b);
    assert(seq![Token::Word(a)][0] == seq![Token::Word(b)][0]);
}

proof fn read_bare_word(from: Reading, word: Seq<char>)
    requires
        from.quoting is Bare,
        word.len() > 0,
        forall|i: int| 0 <= i < word.len() ==> is_ordinary(#[trigger] word[i]),
    ensures
        from.read(word) == (Reading { word: Some(from.word_so_far() + word), ..from }),
    decreases word.len(),
{
    let shorter = word.drop_last();
    assert(word == shorter.push(word.last()));
    assert(is_ordinary(word[word.len() - 1]));
    if shorter.len() == 0 {
        assert(from.read(shorter) == from);
    } else {
        assert forall|i: int| 0 <= i < shorter.len() implies is_ordinary(#[trigger] shorter[i]) by {
            assert(shorter[i] == word[i]);
        }
        read_bare_word(from, shorter);
    }
    assert((from.word_so_far() + shorter).push(word.last()) == from.word_so_far() + word);
    assert(from.word_so_far().push(word.last()) == from.word_so_far() + seq![word.last()]);
}

/// A bare word and the blank after it.
proof fn read_word_and_blank(from: Reading, text: Seq<char>, word: Seq<char>)
    requires
        from.between_words(),
        word.len() > 0,
        forall|i: int| 0 <= i < word.len() ==> is_ordinary(#[trigger] word[i]),
        text == word.push(' '),
    ensures
        from.read(text) == (Reading { tokens: from.tokens.push(Token::Word(word)), ..from }),
{
    read_bare_word(from, word);
    assert(Seq::<char>::empty() + word == word);
    read_push(from, word, ' ');
}

/// A blank where a word may end.
proof fn read_blank(from: Reading)
    requires
        from.quoting is Bare,
    ensures
        from.read(" "@) == from.end_word(),
{
    reveal_strlit(" ");
    read_next(from, " "@, 0);
    assert(" "@.take(1) == " "@);
    assert(" "@.take(0) == Seq::<char>::empty());
}

/// An operator character and the blank after it.
proof fn read_operator_and_blank(from: Reading, text: Seq<char>, c: char)
    requires
        from.quoting is Bare,
        c == ';' || c == '&' || c == '<' || c == '>',
        text == seq![c, ' '],
    ensures
        from.read(text) == (Reading {
            tokens: from.end_word().tokens.push(Token::Operator(c)),
            word: None,
            ..from
        }),
{
    read_next(from, text, 0);
    read_next(from, text, 1);
    assert(text.take(2) == text);
    assert(text.take(0) == Seq::<char>::empty());
}

proof fn read_and_operator(from: Reading)
    requires
        from.quoting is Bare,
    ensures
        from.read("&& "@) == (Reading {
            tokens: from.end_word().tokens.push(Token::Operator('&')).push(Token::Operator('&')),
            word: None,
            ..from
        }),
{
    reveal_strlit("&& ");
    let text = "&& "@;
    read_next(from, text, 0);
    read_next(from, text, 1);
    read_next(from, text, 2);
    assert(text.take(3) == text);
    assert(text.take(0) == Seq::<char>::empty());
}

/// To a shell, the command that replaces a destination is `mv`, `-f`, the
/// temporary name and the destination, whatever characters these hold.
pub proof fn move_command_has_these_tokens(dest: Seq<char>)
    ensures
        tokens(move_command_text(dest)) == Some(
            seq![
                Token::Word("mv"@),
                Token::Word("-f"@),
                Token::Word(temporary_of(dest)),
                Token::Word(dest),
            ],
        ),
{
    reveal_strlit("mv -f ");
    reveal_strlit("mv ");
    reveal_strlit("mv");
    reveal_strlit("-f ");
    reveal_strlit("-f");
    let start = Reading::start();
    let temporary = temporary_of(dest);
    assert("mv -f "@ == "mv "@ + "-f "@);
    assert("mv "@ == "mv"@.push(' '));
    assert("-f "@ == "-f"@.push(' '));
    read_word_and_blank(start, "mv "@, "mv"@);
    read_word_and_blank(start.read("mv "@), "-f "@, "-f"@);
    read_concat(start, "mv "@, "-f "@);
    let s1 = start.read("mv -f "@);
    read_concat(start, "mv -f "@, quoted(temporary));
    quoted_text_is_read_back(s1, temporary);
    assert(Seq::<char>::empty() + temporary == temporary);
    let t2 = "mv -f "@ + quoted(temporary);
    let s2 = start.read(t2);
    read_concat(start, t2, " "@);
    read_blank(s2);
    let t3 = t2 + " "@;
    let s3 = start.read(t3);
    read_concat(start, t3, quoted(dest));
    quoted_text_is_read_back(s3, dest);
    assert(Seq::<char>::empty() + dest == dest);
    assert(tokens(move_command_text(dest))->0 == seq![
        Token::Word("mv"@),
        Token::Word("-f"@),
        Token::Word(temporary),
        Token::Word(dest),
    ]);
}

/// To a shell, the command that receives an upload makes the directory of the
/// destination, if it names one, and then writes to the temporary name, and to
/// no other file.
pub proof fn upload_command_has_these_tokens(dest: Seq<char>)
    ensures
        tokens(upload_command_text(dest)) == Some(
            match parent_of(dest) {
                Some(parent) => seq![Token::Word("mkdir"@), Token::Word("-p"@), Token::Word(parent)],
                None => seq![Token::Word(":"@)],
            } + seq![
                Token::Operator('&'),
                Token::Operator('&'),
                Token::Word("cat"@),
                Token::Operator('>'),
                Token::Word(temporary_of(dest)),
            ],
        ),
{
    reveal_strlit("mkdir -p ");
    reveal_strlit("mkdir ");
    reveal_strlit("mkdir");
    reveal_strlit("-p ");
    reveal_strlit("-p");
    reveal_strlit(":");
    reveal_strlit(" && cat > ");
    reveal_strlit(" ");
    reveal_strlit("&& ");
    reveal_strlit("cat ");
    reveal_strlit("cat");
    reveal_strlit("> ");
    let start = Reading::start();
    let temporary = temporary_of(dest);
    let made = parent_command_text(dest);
    let first = match parent_of(dest) {
        Some(parent) => seq![Token::Word("mkdir"@), Token::Word("-p"@), Token::Word(parent)],
        None => seq![Token::Word(":"@)],
    };
    let s1 = start.read(made);
    match parent_of(dest) {
        Some(parent) => {
            assert("mkdir -p "@ == "mkdir "@ + "-p "@);
            assert("mkdir "@ == "mkdir"@.push(' '));
            assert("-p "@ == "-p"@.push(' '));
            read_word_and_blank(start, "mkdir "@, "mkdir"@);
            read_word_and_blank(start.read("mkdir "@), "-p "@, "-p"@);
            read_concat(start, "mkdir "@, "-p "@);
            read_concat(start, "mkdir -p "@, quoted(parent));
            quoted_text_is_read_back(start.read("mkdir -p "@), parent);
            assert(Seq::<char>::empty() + parent == parent);
            assert(s1.end_word().tokens == first);
        },
        None => {
            read_bare_word(start, ":"@);
            assert(Seq::<char>::empty() + ":"@ == ":"@);
            assert(s1.end_word().tokens == first);
        },
    }
    let middle = " && cat > "@;
    assert(middle == " "@ + ("&& "@ + ("cat "@ + "> "@)));
    assert("cat "@ == "cat"@.push(' '));
    assert("> "@ == seq!['>', ' ']);
    read_concat(s1, " "@, "&& "@ + ("cat "@ + "> "@));
    read_blank(s1);
    let s2 = s1.read(" "@);
    read_concat(s2, "&& "@, "cat "@ + "> "@);
    read_and_operator(s2);
    let s3 = s2.read("&& "@);
    read_concat(s3, "cat "@, "> "@);
    read_word_and_blank(s3, "cat "@, "cat"@);
    let s4 = s3.read("cat "@);
    read_operator_and_blank(s4, "> "@, '>');
    let s5 = s4.read("> "@);
    assert(s5 == s1.read(middle));
    read_concat(start, made, middle);
    read_concat(start, made + middle, quoted(temporary));
    quoted_text_is_read_back(s5, temporary);
    assert(Seq::<char>::empty() + temporary == temporary);
    assert(tokens(upload_command_text(dest))->0 == first + seq![
        Token::Operator('&'),
        Token::Operator('&'),
        Token::Word("cat"@),
        Token::Operator('>'),
        Token::Word(temporary),
    ]);
}

/// To a shell, the command that reads a file tests that very path and prints
/// that very path, and otherwise leaves with status 66.
pub proof fn read_command_has_these_tokens(path: Seq<char>)
    ensures
        tokens(read_command_text(path)) == Some(
            seq![
                Token::Word("if"@),
                Token::Word("["@),
                Token::Word("-f"@),
                Token::Word(path),
                Token::Word("]"@),
                Token::Operator(';'),
                Token::Word("then"@),
                Token::Word("cat"@),
                Token::Operator('<'),
                Token::Word(path),
                Token::Operator(';'),
                Token::Word("else"@),
                Token::Word("exit"@),
                Token::Word("66"@),
                Token::Operator(';'),
                Token::Word("fi"@),
            ],
        ),
{
    let start = Reading::start();
    let opening = "if [ -f "@;
    let middle = " ]; then cat < "@;
    let closing = "; else exit 66; fi"@;
    read_opening(start);
    let s1 = start.read(opening);
    quoted_text_is_read_back(s1, path);
    assert(Seq::<char>::empty() + path == path);
    read_concat(start, opening, quoted(path));
    let t2 = opening + quoted(path);
    let s2 = start.read(t2);
    read_middle(s2);
    read_concat(start, t2, middle);
    let t3 = t2 + middle;
    let s3 = start.read(t3);
    quoted_text_is_read_back(s3, path);
    read_concat(start, t3, quoted(path));
    let t4 = t3 + quoted(path);
    let s4 = start.read(t4);
    read_closing(s4);
    read_concat(start, t4, closing);
    assert(tokens(read_command_text(path))->0 == seq![
        Token::Word("if"@),
        Token::Word("["@),
        Token::Word("-f"@),
        Token::Word(path),
        Token::Word("]"@),
        Token::Operator(';'),
        Token::Word("then"@),
        Token::Word("cat"@),
        Token::Operator('<'),
        Token::Word(path),
        Token::Operator(';'),
        Token::Word("else"@),
        Token::Word("exit"@),
        Token::Word("66"@),
        Token::Operator(';'),
        Token::Word("fi"@),
    ]);
}

proof fn read_opening(from: Reading)
    requires
        from.between_words(),
    ensures
        from.read("if [ -f "@) == (Reading {
            tokens: from.tokens.push(Token::Word("if"@)).push(Token::Word("["@)).push(
                Token::Word("-f"@),
            ),
            ..from
        }),
{
    reveal_strlit("if [ -f ");
    reveal_strlit("if ");
    reveal_strlit("if");
    reveal_strlit("[ ");
    reveal_strlit("[");
    reveal_strlit("-f ");
    reveal_strlit("-f");
    assert("if [ -f "@ == "if "@ + ("[ "@ + "-f "@));
    assert("if "@ == "if"@.push(' '));
    assert("[ "@ == "["@.push(' '));
    assert("-f "@ == "-f"@.push(' '));
    read_concat(from, "if "@, "[ "@ + "-f "@);
    read_word_and_blank(from, "if "@, "if"@);
    let s1 = from.read("if "@);
    read_concat(s1, "[ "@, "-f "@);
    read_word_and_blank(s1, "[ "@, "["@);
    let s2 = s1.read("[ "@);
    read_word_and_blank(s2, "-f "@, "-f"@);
}

proof fn read_middle(from: Reading)
    requires
        from.quoting is Bare,
    ensures
        from.read(" ]; then cat < "@) == (Reading {
            tokens: from.end_word().tokens.push(Token::Word("]"@)).push(Token::Operator(';')).push(
                Token::Word("then"@),
            ).push(Token::Word("cat"@)).push(Token::Operator('<')),
            word: None,
            ..from
        }),
{
    reveal_strlit(" ]; then cat < ");
    reveal_strlit(" ");
    reveal_strlit("]");
    reveal_strlit("; ");
    reveal_strlit("then ");
    reveal_strlit("then");
    reveal_strlit("cat ");
    reveal_strlit("cat");
    reveal_strlit("< ");
    assert(" ]; then cat < "@ == " "@ + ("]"@ + ("; "@ + ("then "@ + ("cat "@ + "< "@)))));
    assert("then "@ == "then"@.push(' '));
    assert("cat "@ == "cat"@.push(' '));
    assert("; "@ == seq![';', ' ']);
    assert("< "@ == seq!['<', ' ']);
    read_concat(from, " "@, "]"@ + ("; "@ + ("then "@ + ("cat "@ + "< "@))));
    read_blank(from);
    let s1 = from.read(" "@);
    read_concat(s1, "]"@, "; "@ + ("then "@ + ("cat "@ + "< "@)));
    read_bare_word(s1, "]"@);
    assert(Seq::<char>::empty() + "]"@ == "]"@);
    let s2 = s1.read("]"@);
    read_concat(s2, "; "@, "then "@ + ("cat "@ + "< "@));
    read_operator_and_blank(s2, "; "@, ';');
    let s3 = s2.read("; "@);
    read_concat(s3, "then "@, "cat "@ + "< "@);
    read_word_and_blank(s3, "then "@, "then"@);
    let s4 = s3.read("then "@);
    read_concat(s4, "cat "@, "< "@);
    read_word_and_blank(s4, "cat "@, "cat"@);
    let s5 = s4.read("cat "@);
    read_operator_and_blank(s5, "< "@, '<');
}

proof fn read_closing(from: Reading)
    requires
        from.quoting is Bare,
    ensures
        from.read("; else exit 66; fi"@).end_word() == (Reading {
            tokens: from.end_word().tokens.push(Token::Operator(';')).push(Token::Word("else"@)).push(
                Token::Word("exit"@),
            ).push(Token::Word("66"@)).push(Token::Operator(';')).push(Token::Word("fi"@)),
            word: None,
            ..from
        }),
{
    reveal_strlit("; else exit 66; fi");
    reveal_strlit("; ");
    reveal_strlit("else ");
    reveal_strlit("else");
    reveal_strlit("exit ");
    reveal_strlit("exit");
    reveal_strlit("66");
    reveal_strlit("fi");
    assert("; else exit 66; fi"@ == "; "@ + ("else "@ + ("exit "@ + ("66"@ + ("; "@ + "fi"@)))));
    assert("else "@ == "else"@.push(' '));
    assert("exit "@ == "exit"@.push(' '));
    assert("; "@ == seq![';', ' ']);
    read_concat(from, "; "@, "else "@ + ("exit "@ + ("66"@ + ("; "@ + "fi"@))));
    read_operator_and_blank(from, "; "@, ';');
    let s1 = from.read("; "@);
    read_concat(s1, "else "@, "exit "@ + ("66"@ + ("; "@ + "fi"@)));
    read_word_and_blank(s1, "else "@, "else"@);
    let s2 = s1.read("else "@);
    read_concat(s2, "exit "@, "66"@ + ("; "@ + "fi"@));
    read_word_and_blank(s2, "exit "@, "exit"@);
    let s3 = s2.read("exit "@);
    read_concat(s3, "66"@, "; "@ + "fi"@);
    read_bare_word(s3, "66"@);
    assert(Seq::<char>::empty() + "66"@ == "66"@);
    let s4 = s3.read("66"@);
    read_concat(s4, "; "@, "fi"@);
    read_operator_and_blank(s4, "; "@, ';');
    let s5 = s4.read("; "@);
    read_bare_word(s5, "fi"@);
    assert(Seq::<char>::empty() + "fi"@ == "fi"@);
}

/// A text without a single quote is quoted by one before it and one behind it.
pub proof fn plain_text_is_quoted_as_it_is(value: Seq<char>)
    requires
        !value.contains('\''),
    ensures
        quoted(value) == seq!['\''] + value + seq!['\''],
{
    plain_text_is_not_escaped(value);
    assert(quoted(value) == seq!['\''] + value + seq!['\'']);
}

proof fn plain_text_is_not_escaped(value: Seq<char>)
    requires
        !value.contains('\''),
    ensures
        escaped(value) == value,
    decreases value.len(),
{
    if value.len() > 0 {
        let shorter = value.drop_last();
        assert(value.contains(value[value.len() - 1]));
        assert forall|i: int| 0 <= i < shorter.len() implies shorter[i] != '\'' by {
            assert(value.contains(value[i]));
        }
        plain_text_is_not_escaped(shorter);
        assert(value == shorter.push(value.last()));
    }
}

/// At a single quote a text is quoted in two parts, with that quote between them in
/// double quotes.
pub proof fn text_is_quoted_in_parts_at_a_quote(a: Seq<char>, b: Seq<char>)
    ensures
        quoted(a.push('\'') + b) == quoted(a) + seq!['"', '\'', '"'] + quoted(b),
{
    escaping_goes_part_by_part(a.push('\''), b);
    assert(a.push('\'').drop_last() == a);
    assert(quoted(a.push('\'') + b) == quoted(a) + seq!['"', '\'', '"'] + quoted(b));
}

proof fn escaping_goes_part_by_part(a: Seq<char>, b: Seq<char>)
    ensures
        escaped(a + b) == escaped(a) + escaped(b),
    decreases b.len(),
{
    if b.len() == 0 {
        assert(a + b == a);
        assert(escaped(a) + escaped(b) == escaped(a));
    } else {
        escaping_goes_part_by_part(a, b.drop_last());
        assert((a + b).drop_last() == a + b.drop_last());
        assert((a + b).last() == b.last());
        assert(escaped(a + b) == escaped(a) + escaped(b));
    }
}

} // verus!
