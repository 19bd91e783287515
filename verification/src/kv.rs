//! The line commands of the interactive key-value mode.
//!
//! A line is cut at every single space. The first piece names the command,
//! the pieces after it are its arguments: `GET <key>`, `GET_PROVIDERS <key>`,
//! `PUT <key> <value>` and `PUT_PROVIDER <key>`. Two spaces in a row enclose
//! an empty piece, which is an argument like any other.

use vstd::prelude::*;
use vstd::string::StringSliceAdditionalSpecFns;
use vstd::utf8::encode_utf8;

verus! {

/// The byte that separates the pieces of a line.
pub const SPACE: u8 = 0x20;

/// What a line asks for.
#[derive(Debug)]
pub enum LineCommand {
    /// Look up the value stored under the key.
    Get { key: Vec<u8> },
    /// Look up the peers that provide the key.
    GetProviders { key: Vec<u8> },
    /// Store the value under the key.
    Put { key: Vec<u8>, value: Vec<u8> },
    /// Advertise this node as a provider of the key.
    PutProvider { key: Vec<u8> },
    /// The command lacks its key.
    ExpectedKey,
    /// The command lacks its value.
    ExpectedValue,
    /// The line names none of the four commands.
    ExpectedCommand,
}

/// A line command as a mathematical value.
pub enum LineCommandView {
    Get { key: Seq<u8> },
    GetProviders { key: Seq<u8> },
    Put { key: Seq<u8>, value: Seq<u8> },
    PutProvider { key: Seq<u8> },
    ExpectedKey,
    ExpectedValue,
    ExpectedCommand,
}

impl View for LineCommand {
    type V = LineCommandView;

    open spec fn view(&self) -> LineCommandView {
        match *self {
            LineCommand::Get { key } => LineCommandView::Get { key: key@ },
            LineCommand::GetProviders { key } => LineCommandView::GetProviders { key: key@ },
            LineCommand::Put { key, value } => LineCommandView::Put { key: key@, value: value@ },
            LineCommand::PutProvider { key } => LineCommandView::PutProvider { key: key@ },
            LineCommand::ExpectedKey => LineCommandView::ExpectedKey,
            LineCommand::ExpectedValue => LineCommandView::ExpectedValue,
            LineCommand::ExpectedCommand => LineCommandView::ExpectedCommand,
        }
    }
}

/// Index of the first space of `s` at or after `from`, or the length of `s`
/// where there is none.
pub open spec fn piece_end(s: Seq<u8>, from: int) -> int
    decreases s.len() - from,
{
    if from < 0 || from >= s.len() {
        s.len() as int
    } else if s[from] == SPACE {
        from
    } else {
        piece_end(s, from + 1)
    }
}

/// Where the piece with the number `n` starts, counting from the piece that
/// starts at `from`, or nothing where the line has no such piece.
pub open spec fn piece_start(s: Seq<u8>, from: int, n: nat) -> Option<int>
    decreases n,
{
    if n == 0 {
        Some(from)
    } else if piece_end(s, from) >= s.len() {
        None
    } else {
        piece_start(s, piece_end(s, from) + 1, (n - 1) as nat)
    }
}

/// The piece of the line with the number `n`, the first being number 0.
pub open spec fn piece(s: Seq<u8>, n: nat) -> Option<Seq<u8>> {
    match piece_start(s, 0, n) {
        Some(start) => Some(s.subrange(start, piece_end(s, start))),
        None => None,
    }
}

/// The word `GET`.
pub open spec fn word_get() -> Seq<u8> {
    seq![0x47u8, 0x45, 0x54]
}

/// The word `PUT`.
pub open spec fn word_put() -> Seq<u8> {
    seq![0x50u8, 0x55, 0x54]
}

/// The word `GET_PROVIDERS`.
pub open spec fn word_get_providers() -> Seq<u8> {
    seq![0x47u8, 0x45, 0x54, 0x5F, 0x50, 0x52, 0x4F, 0x56, 0x49, 0x44, 0x45, 0x52, 0x53]
}

/// The word `PUT_PROVIDER`.
pub open spec fn word_put_provider() -> Seq<u8> {
    seq![0x50u8, 0x55, 0x54, 0x5F, 0x50, 0x52, 0x4F, 0x56, 0x49, 0x44, 0x45, 0x52]
}

/// What the line with the bytes `s` asks for.
pub open spec fn spec_line(s: Seq<u8>) -> LineCommandView {
    let word = piece(s, 0);
    if word == Some(word_get()) {
        match piece(s, 1) {
            Some(key) => LineCommandView::Get { key },
            None => LineCommandView::ExpectedKey,
        }
    } else if word == Some(word_get_providers()) {
        match piece(s, 1) {
            Some(key) => LineCommandView::GetProviders { key },
            None => LineCommandView::ExpectedKey,
        }
    } else if word == Some(word_put()) {
        match piece(s, 1) {
            Some(key) => match piece(s, 2) {
                Some(value) => LineCommandView::Put { key, value },
                None => LineCommandView::ExpectedValue,
            },
            None => LineCommandView::ExpectedKey,
        }
    } else if word == Some(word_put_provider()) {
        match piece(s, 1) {
            Some(key) => LineCommandView::PutProvider { key },
            None => LineCommandView::ExpectedKey,
        }
    } else {
        LineCommandView::ExpectedCommand
    }
}

/// True when `s` holds no space.
pub open spec fn spaceless(s: Seq<u8>) -> bool {
    forall|i: int| 0 <= i < s.len() ==> s[i] != SPACE
}

/// A piece ends where the first space after its start stands, or where the
/// line ends.
pub proof fn lemma_piece_end_at(s: Seq<u8>, from: int, end: int)
    requires
        0 <= from <= end <= s.len(),
        forall|i: int| from <= i < end ==> s[i] != SPACE,
        end < s.len() ==> s[end] == SPACE,
    ensures
        piece_end(s, from) == end,
    decreases end - from,
{
    if from < end {
        lemma_piece_end_at(s, from + 1, end);
    }
}

/// A command word followed by a space and a key without spaces, and by
/// whatever comes after a further space, is read as that word and that key.
pub proof fn lemma_word_and_key(word: Seq<u8>, key: Seq<u8>, rest: Seq<u8>)
    requires
        spaceless(word),
        spaceless(key),
        rest.len() > 0 ==> rest[0] == SPACE,
    ensures
        piece(word + seq![SPACE] + key + rest, 0) == Some(word),
        piece(word + seq![SPACE] + key + rest, 1) == Some(key),
{
    let s = word + seq![SPACE] + key + rest;
    let w = word.len() as int;
    let k = key.len() as int;
    reveal_with_fuel(piece_start, 2);
    assert forall|i: int| 0 <= i < w implies s[i] != SPACE by {
        assert(s[i] == word[i]);
    }
    assert(s[w] == SPACE);
    lemma_piece_end_at(s, 0, w);
    assert forall|i: int| w + 1 <= i < w + 1 + k implies s[i] != SPACE by {
        assert(s[i] == key[i - w - 1]);
    }
    if rest.len() > 0 {
        assert(s[w + 1 + k] == rest[0]);
    }
    lemma_piece_end_at(s, w + 1, w + 1 + k);
    assert(s.subrange(0, w) =~= word);
    assert(s.subrange(w + 1, w + 1 + k) =~= key);
}

/// `GET`, a space and a key without spaces ask for the value under that
/// key; likewise for the two commands on providers.
pub proof fn lemma_key_commands(key: Seq<u8>)
    requires
        spaceless(key),
    ensures
        spec_line(word_get() + seq![SPACE] + key) == (LineCommandView::Get { key }),
        spec_line(word_get_providers() + seq![SPACE] + key) == (LineCommandView::GetProviders {
            key,
        }),
        spec_line(word_put_provider() + seq![SPACE] + key) == (LineCommandView::PutProvider {
            key,
        }),
{
    let none = Seq::<u8>::empty();
    assert(word_get() + seq![SPACE] + key + none =~= word_get() + seq![SPACE] + key);
    assert(word_get_providers() + seq![SPACE] + key + none =~= word_get_providers() + seq![SPACE]
        + key);
    assert(word_put_provider() + seq![SPACE] + key + none =~= word_put_provider() + seq![SPACE]
        + key);
    lemma_word_and_key(word_get(), key, none);
    lemma_word_and_key(word_get_providers(), key, none);
    lemma_word_and_key(word_put_provider(), key, none);
    assert(word_get().len() != word_get_providers().len());
    assert(word_put_provider().len() != word_get_providers().len());
    assert(word_put_provider().len() != word_get().len());
    assert(word_put_provider().len() != word_put().len());
    assert(word_get_providers().len() != word_put().len());
    assert(word_get()[0] != word_put()[0]);
}

/// `PUT`, a key and a value, each without spaces and a space before it, ask
/// to store that value under that key.
pub proof fn lemma_put_command(key: Seq<u8>, value: Seq<u8>)
    requires
        spaceless(key),
        spaceless(value),
    ensures
        spec_line(word_put() + seq![SPACE] + key + seq![SPACE] + value) == (LineCommandView::Put {
            key,
            value,
        }),
{
    let s = word_put() + seq![SPACE] + key + seq![SPACE] + value;
    let rest = seq![SPACE] + value;
    assert(s =~= word_put() + seq![SPACE] + key + rest);
    lemma_word_and_key(word_put(), key, rest);
    let w = 3int;
    let k = key.len() as int;
    let v = value.len() as int;
    reveal_with_fuel(piece_start, 3);
    assert forall|i: int| 0 <= i < w implies s[i] != SPACE by {
        assert(s[i] == word_put()[i]);
    }
    lemma_piece_end_at(s, 0, w);
    assert forall|i: int| w + 1 <= i < w + 1 + k implies s[i] != SPACE by {
        assert(s[i] == key[i - w - 1]);
    }
    assert(s[w + 1 + k] == SPACE);
    lemma_piece_end_at(s, w + 1, w + 1 + k);
    assert forall|i: int| w + k + 2 <= i < w + k + 2 + v implies s[i] != SPACE by {
        assert(s[i] == value[i - w - k - 2]);
    }
    lemma_piece_end_at(s, w + k + 2, w + k + 2 + v);
    assert(s.subrange(w + k + 2, w + k + 2 + v) =~= value);
    assert(word_put().len() != word_get_providers().len());
    assert(word_get()[0] != word_put()[0]);
}

/// Finds the end of the piece that starts at `from`.
fn find_piece_end(input: &[u8], from: usize) -> (end: usize)
    requires
        from <= input.len(),
    ensures
        end == piece_end(input@, from as int),
        from <= end <= input.len(),
{
    let mut i: usize = from;
    while i < input.len() && input[i] != SPACE
        invariant
            from <= i <= input.len(),
            piece_end(input@, from as int) == piece_end(input@, i as int),
        decreases input.len() - i,
    {
        i = i + 1;
    }
    i
}

/// Copies `input[from..to]` into a vector of its own.
fn copy_piece(input: &[u8], from: usize, to: usize) -> (out: Vec<u8>)
    requires
        from <= to <= input.len(),
    ensures
        out@ == input@.subrange(from as int, to as int),
{
    let mut out: Vec<u8> = Vec::new();
    let mut i: usize = from;
    while i < to
        invariant
            from <= i <= to,
            to <= input.len(),
            out@ == input@.subrange(from as int, i as int),
        decreases to - i,
    {
        proof {
            assert(input@.subrange(from as int, i + 1) =~= input@.subrange(
                from as int,
                i as int,
            ).push(input@[i as int]));
        }
        out.push(input[i]);
        i = i + 1;
    }
    out
}

/// Tells whether `input[from..to]` is the word `word`.
fn is_word(input: &[u8], from: usize, to: usize, word: &[u8]) -> (r: bool)
    requires
        from <= to <= input.len(),
    ensures
        r == (input@.subrange(from as int, to as int) == word@),
{
    if to - from != word.len() {
        return false;
    }
    let mut i: usize = 0;
    while i < word.len()
        invariant
            i <= word.len(),
            from <= to <= input.len(),
            to - from == word.len(),
            forall|k: int| 0 <= k < i ==> input@[from + k] == word@[k],
        decreases word.len() - i,
    {
        if input[from + i] != word[i] {
            proof {
                assert(input@.subrange(from as int, to as int)[i as int] != word@[i as int]);
            }
            return false;
        }
        i = i + 1;
    }
    proof {
        assert(input@.subrange(from as int, to as int) =~= word@);
    }
    true
}

/// The argument that follows the piece ending at `end`, if the line has one:
/// where it starts and where it ends.
fn next_piece(input: &[u8], end: usize) -> (r: Option<(usize, usize)>)
    requires
        end <= input.len(),
    ensures
        match r {
            Some((start, stop)) => end < input.len() && start == end + 1 && stop == piece_end(
                input@,
                start as int,
            ) && start <= stop <= input.len(),
            None => end == input.len(),
        },
{
    if end >= input.len() {
        None
    } else {
        let start = end + 1;
        let stop = find_piece_end(input, start);
        Some((start, stop))
    }
}

/// Reads a line command from the bytes of a line.
pub fn parse_line(input: &[u8]) -> (command: LineCommand)
    ensures
        command@ == spec_line(input@),
{
    let word_end = find_piece_end(input, 0);
    let get: [u8; 3] = [0x47, 0x45, 0x54];
    let put: [u8; 3] = [0x50, 0x55, 0x54];
    let get_providers: [u8; 13] = [
        0x47,
        0x45,
        0x54,
        0x5F,
        0x50,
        0x52,
        0x4F,
        0x56,
        0x49,
        0x44,
        0x45,
        0x52,
        0x53,
    ];
    let put_provider: [u8; 12] = [
        0x50,
        0x55,
        0x54,
        0x5F,
        0x50,
        0x52,
        0x4F,
        0x56,
        0x49,
        0x44,
        0x45,
        0x52,
    ];
    proof {
        reveal_with_fuel(piece_start, 3);
        assert(get@ =~= word_get());
        assert(put@ =~= word_put());
        assert(get_providers@ =~= word_get_providers());
        assert(put_provider@ =~= word_put_provider());
        assert(word_get() != word_put()) by {
            assert(word_get()[0] != word_put()[0]);
        }
        assert(word_get().len() != word_get_providers().len());
        assert(word_get().len() != word_put_provider().len());
        assert(word_put().len() != word_get_providers().len());
        assert(word_put().len() != word_put_provider().len());
        assert(word_get_providers().len() != word_put_provider().len());
    }
    let is_get = is_word(input, 0, word_end, get.as_slice());
    let is_get_providers = is_word(input, 0, word_end, get_providers.as_slice());
    let is_put = is_word(input, 0, word_end, put.as_slice());
    let is_put_provider = is_word(input, 0, word_end, put_provider.as_slice());
    if !is_get && !is_get_providers && !is_put && !is_put_provider {
        return LineCommand::ExpectedCommand;
    }
    let (key_start, key_end) = match next_piece(input, word_end) {
        Some(range) => range,
        None => {
            return LineCommand::ExpectedKey;
        },
    };
    let key = copy_piece(input, key_start, key_end);
    if is_get {
        LineCommand::Get { key }
    } else if is_get_providers {
        LineCommand::GetProviders { key }
    } else if is_put_provider {
        LineCommand::PutProvider { key }
    } else {
        match next_piece(input, key_end) {
            Some((value_start, value_end)) => {
                let value = copy_piece(input, value_start, value_end);
                LineCommand::Put { key, value }
            },
            None => LineCommand::ExpectedValue,
        }
    }
}

/// Reads a line command from a line of text.
pub fn handle_input_line(line: &str) -> (command: LineCommand)
    ensures
        command@ == spec_line(encode_utf8(line@)),
{
    parse_line(line.as_bytes())
}

} // verus!
