use crate::environment::{spec_metadata, Environment};
use crate::errors::Error;
use crate::strutil::{contains_seq, find_sub, has_prefix, path_join, starts_with, u64_to_string};
use vstd::prelude::*;
use vstd::string::StrSliceExecFns;

verus! {

/// A word character of the managed binaries' textual output: an ASCII
/// letter, digit or underscore.
pub open spec fn is_word_char(c: char) -> bool {
    ||| (97 <= c as u32 && c as u32 <= 122)
    ||| (65 <= c as u32 && c as u32 <= 90)
    ||| (48 <= c as u32 && c as u32 <= 57)
    ||| c as u32 == 95
}

/// A whitespace character of that output.
pub open spec fn is_space_char(c: char) -> bool {
    c == ' ' || c == '\n' || c == '\t' || c == '\r'
}

fn is_word_char_exec(c: char) -> (r: bool)
    ensures
        r == is_word_char(c),
{
    let u = c as u32;
    (97 <= u && u <= 122) || (65 <= u && u <= 90) || (48 <= u && u <= 57) || u == 95
}

fn is_space_char_exec(c: char) -> (r: bool)
    ensures
        r == is_space_char(c),
{
    c == ' ' || c == '\n' || c == '\t' || c == '\r'
}

/// The banner line the client binary prints above a generated seed
/// phrase.  This textual protocol belongs to the managed binary; it is
/// read here behind this one narrow adapter.
pub open spec fn seed_banner() -> Seq<char> {
    "YOUR PRIVATE SEED PHRASE (SpendKey):"@
}

/// End of the maximal whitespace run beginning at `j`.
pub open spec fn space_run_end(s: Seq<char>, j: int) -> int
    decreases s.len() - j,
{
    if 0 <= j && j < s.len() && is_space_char(s[j]) {
        space_run_end(s, j + 1)
    } else {
        j
    }
}

/// End of the maximal word run beginning at `j`.
pub open spec fn word_run_end(s: Seq<char>, j: int) -> int
    decreases s.len() - j,
{
    if 0 <= j && j < s.len() && is_word_char(s[j]) {
        word_run_end(s, j + 1)
    } else {
        j
    }
}

/// A line break occurs at or after `a` and before `b`.
pub open spec fn has_newline(s: Seq<char>, a: int, b: int) -> bool {
    exists|i: int| a <= i < b && s[i] == '\n'
}

/// The first position at or after `i` where `sub` occurs in `s`.
pub open spec fn find_from(s: Seq<char>, sub: Seq<char>, i: int) -> Option<int>
    decreases s.len() + 1 - i,
{
    if i < 0 || i + sub.len() > s.len() {
        None
    } else if s.subrange(i, i + sub.len()) == sub {
        Some(i)
    } else {
        find_from(s, sub, i + 1)
    }
}

/// Reading the phrase that began at `start`, with `k` words read so far
/// and the next expected at `cur`: after the twelfth (or, failing that,
/// the twenty-fourth) word, whitespace holding a line break followed by
/// the `Save` notice closes the phrase, which is the text from `start`
/// to the last word's end.
pub open spec fn scan_words(s: Seq<char>, start: int, cur: int, k: int) -> Option<Seq<char>>
    decreases 24 - k,
{
    if k >= 24 {
        None
    } else if cur < 0 || cur >= s.len() || !is_word_char(s[cur]) {
        None
    } else {
        let e = word_run_end(s, cur);
        let k1 = k + 1;
        let a = space_run_end(s, e);
        if (k1 == 12 || k1 == 24) && has_newline(s, e, a) && a + 4 <= s.len() && s.subrange(
            a,
            a + 4,
        ) == "Save"@ {
            Some(s.subrange(start, e))
        } else if k1 == 24 {
            None
        } else {
            scan_words(s, start, a, k1)
        }
    }
}

/// What the banner adapter reads from the client's output: after the
/// first banner occurrence and a whitespace run holding a line break,
/// the word run closed by the `Save` notice.
pub open spec fn spec_extract_seed_phrase(s: Seq<char>) -> Option<Seq<char>> {
    match find_from(s, seed_banner(), 0) {
        Some(b) => {
            let start = b + seed_banner().len();
            let p0 = space_run_end(s, start);
            if has_newline(s, start, p0) {
                scan_words(s, p0, p0, 0)
            } else {
                None
            }
        },
        None => None,
    }
}

/// A leftmost match is what `find_from` computes, from any earlier start.
proof fn lemma_find_from_first(s: Seq<char>, sub: Seq<char>, i: int, j: int)
    requires
        0 <= j <= i,
        i + sub.len() <= s.len(),
        s.subrange(i, i + sub.len()) == sub,
        forall|j2: int| 0 <= j2 < i ==> #[trigger] s.subrange(j2, j2 + sub.len()) != sub,
    ensures
        find_from(s, sub, j) == Some(i),
    decreases i - j,
{
    if j < i {
        lemma_find_from_first(s, sub, i, j + 1);
    }
}

/// Without any occurrence there is nothing for `find_from` to find.
proof fn lemma_find_from_none(s: Seq<char>, sub: Seq<char>, j: int)
    requires
        j >= 0,
        !contains_seq(s, sub),
    ensures
        find_from(s, sub, j) == None::<int>,
    decreases s.len() + 1 - j,
{
    if j + sub.len() <= s.len() {
        if s.subrange(j, j + sub.len()) == sub {
            assert(contains_seq(s, sub));
        }
        lemma_find_from_none(s, sub, j + 1);
    }
}

/// Pulls the seed phrase out of the client binary's banner output,
/// exactly as [`spec_extract_seed_phrase`] reads it: the run of words
/// after the banner, up to the `Save` notice.  The phrase is returned as
/// the original text slice, so every returned phrase occurs in the
/// output, consists of words and the whitespace between them, and begins
/// and ends on a word character.
pub fn extract_seed_phrase(input: &str) -> (r: Option<String>)
    ensures
        spec_extract_seed_phrase(input@) matches Some(p) ==> (r matches Some(out) && out@ == p),
        spec_extract_seed_phrase(input@) is None ==> r is None,
        r matches Some(p) ==> {
            &&& contains_seq(input@, seed_banner())
            &&& contains_seq(input@, p@)
            &&& p@.len() > 0
            &&& is_word_char(p@.first())
            &&& is_word_char(p@.last())
            &&& forall|i: int|
                0 <= i < p@.len() ==> (is_word_char(#[trigger] p@[i]) || is_space_char(p@[i]))
        },
{
    let banner = "YOUR PRIVATE SEED PHRASE (SpendKey):";
    let len = input.unicode_len();
    let banner_len = banner.unicode_len();
    proof {
        assert(banner@ == seed_banner());
    }
    let bidx = match find_sub(input, banner) {
        Some(i) => i,
        None => {
            proof {
                lemma_find_from_none(input@, seed_banner(), 0);
            }
            return None;
        },
    };
    let start = bidx + banner_len;
    proof {
        assert(input@.subrange(bidx as int, bidx + seed_banner().len()) == seed_banner());
        assert(contains_seq(input@, seed_banner()));
        lemma_find_from_first(input@, seed_banner(), bidx as int, 0);
        assert(find_from(input@, seed_banner(), 0) == Some(bidx as int));
    }
    // skip the whitespace after the banner; a line break must occur
    let mut pos = start;
    let mut saw_newline = false;
    while pos < len && is_space_char_exec(input.get_char(pos))
        invariant
            len == input@.len(),
            start <= pos <= len,
            contains_seq(input@, seed_banner()),
            find_from(input@, seed_banner(), 0) == Some(start - seed_banner().len()),
            space_run_end(input@, start as int) == space_run_end(input@, pos as int),
            saw_newline == has_newline(input@, start as int, pos as int),
        decreases len - pos,
    {
        proof {
            assert(space_run_end(input@, pos as int) == space_run_end(input@, pos + 1));
            if input@[pos as int] == '\n' {
                assert(has_newline(input@, start as int, pos + 1));
            } else {
                assert(has_newline(input@, start as int, pos + 1) == has_newline(
                    input@,
                    start as int,
                    pos as int,
                )) by {
                    if has_newline(input@, start as int, pos + 1) {
                        let w = choose|i: int|
                            start <= i < pos + 1 && input@[i] == '\n';
                        assert(start <= w < pos && input@[w] == '\n');
                    }
                }
            }
        }
        if input.get_char(pos) == '\n' {
            saw_newline = true;
        }
        pos = pos + 1;
    }
    proof {
        assert(space_run_end(input@, pos as int) == pos as int);
        assert(pos as int == space_run_end(input@, start as int));
    }
    if !saw_newline {
        proof {
            assert(spec_extract_seed_phrase(input@) is None);
        }
        return None;
    }
    let phrase_start = pos;
    proof {
        assert(spec_extract_seed_phrase(input@) == scan_words(
            input@,
            phrase_start as int,
            phrase_start as int,
            0,
        ));
    }
    let mut words: u64 = 0;
    let mut word_end = pos;
    loop
        invariant
            len == input@.len(),
            contains_seq(input@, seed_banner()),
            phrase_start <= word_end <= len,
            phrase_start <= pos <= len,
            word_end <= pos,
            words == 0 ==> (pos == phrase_start && word_end == phrase_start),
            words >= 1 ==> {
                &&& phrase_start < word_end
                &&& is_word_char(input@[phrase_start as int])
                &&& is_word_char(input@[word_end - 1])
                &&& forall|i: int|
                    phrase_start <= i < word_end ==> (is_word_char(#[trigger] input@[i])
                        || is_space_char(input@[i]))
            },
            forall|i: int| word_end <= i < pos ==> is_space_char(#[trigger] input@[i]),
            words <= 24,
            spec_extract_seed_phrase(input@) == scan_words(
                input@,
                phrase_start as int,
                pos as int,
                words as int,
            ),
        decreases 25 - words,
    {
        let ghost cur0 = pos as int;
        let ghost k0 = words as int;
        // read one word
        if pos >= len || !is_word_char_exec(input.get_char(pos)) {
            proof {
                assert(scan_words(input@, phrase_start as int, cur0, k0) is None);
            }
            return None;
        }
        let ghost wstart = pos as int;
        while pos < len && is_word_char_exec(input.get_char(pos))
            invariant
                len == input@.len(),
                wstart <= pos <= len,
                wstart < len,
                is_word_char(input@[wstart as int]),
                word_run_end(input@, wstart) == word_run_end(input@, pos as int),
                forall|i: int| wstart <= i < pos ==> is_word_char(#[trigger] input@[i]),
            decreases len - pos,
        {
            proof {
                assert(word_run_end(input@, pos as int) == word_run_end(input@, pos + 1));
            }
            pos = pos + 1;
        }
        proof {
            if pos == wstart {
                assert(is_word_char(input@[wstart as int]));
                assert(false);
            }
            assert(is_word_char(input@[pos - 1]));
            assert(word_run_end(input@, pos as int) == pos as int);
            assert(pos as int == word_run_end(input@, wstart));
        }
        let ghost old_word_end = word_end;
        let ghost old_words = words;
        word_end = pos;
        if words == 24 {
            proof {
                assert(scan_words(input@, phrase_start as int, cur0, k0) is None);
            }
            return None;
        }
        words = words + 1;
        proof {
            assert forall|i: int|
                phrase_start <= i < word_end implies (is_word_char(#[trigger] input@[i])
                || is_space_char(input@[i])) by {
                if old_words >= 1 && i < old_word_end {
                } else if i >= wstart {
                } else {
                    assert(old_word_end <= i < wstart);
                    assert(is_space_char(input@[i]));
                }
            }
        }
        if words == 12 || words == 24 {
            // look ahead for the `Save` notice after a line break
            let mut ahead = pos;
            let mut nl = false;
            while ahead < len && is_space_char_exec(input.get_char(ahead))
                invariant
                    len == input@.len(),
                    pos <= ahead <= len,
                    space_run_end(input@, pos as int) == space_run_end(input@, ahead as int),
                    nl == has_newline(input@, pos as int, ahead as int),
                decreases len - ahead,
            {
                proof {
                    assert(space_run_end(input@, ahead as int) == space_run_end(
                        input@,
                        ahead + 1,
                    ));
                    if input@[ahead as int] == '\n' {
                        assert(has_newline(input@, pos as int, ahead + 1));
                    } else {
                        assert(has_newline(input@, pos as int, ahead + 1) == has_newline(
                            input@,
                            pos as int,
                            ahead as int,
                        )) by {
                            if has_newline(input@, pos as int, ahead + 1) {
                                let w = choose|i: int|
                                    pos <= i < ahead + 1 && input@[i] == '\n';
                                assert(pos <= w < ahead && input@[w] == '\n');
                            }
                        }
                    }
                }
                if input.get_char(ahead) == '\n' {
                    nl = true;
                }
                ahead = ahead + 1;
            }
            proof {
                assert(space_run_end(input@, ahead as int) == ahead as int);
                assert(ahead as int == space_run_end(input@, pos as int));
            }
            if nl && len - ahead >= 4 {
                let tail = input.substring_char(ahead, len);
                if starts_with(tail, "Save") {
                    proof {
                        reveal_strlit("Save");
                        assert(tail@.subrange(0, 4) == "Save"@);
                        assert(input@.subrange(ahead as int, ahead + 4) =~= tail@.subrange(
                            0,
                            4,
                        ));
                        assert(scan_words(input@, phrase_start as int, cur0, k0) == Some(
                            input@.subrange(phrase_start as int, word_end as int),
                        ));
                    }
                    let phrase = input.substring_char(phrase_start, word_end);
                    proof {
                        assert(phrase@ =~= input@.subrange(
                            phrase_start as int,
                            word_end as int,
                        ));
                        assert(input@.subrange(
                            phrase_start as int,
                            phrase_start + phrase@.len(),
                        ) == phrase@);
                        assert(contains_seq(input@, phrase@));
                        assert(phrase@.first() == input@[phrase_start as int]);
                        assert(phrase@.last() == input@[word_end - 1]);
                    }
                    return Some(phrase.to_owned());
                }
            }
            proof {
                // the notice was not found after this word
                assert(!((words as int == 12 || words as int == 24) && has_newline(
                    input@,
                    word_end as int,
                    space_run_end(input@, word_end as int),
                ) && space_run_end(input@, word_end as int) + 4 <= input@.len()
                    && input@.subrange(
                    space_run_end(input@, word_end as int),
                    space_run_end(input@, word_end as int) + 4,
                ) == "Save"@)) by {
                    reveal_strlit("Save");
                    let a = space_run_end(input@, word_end as int);
                    if has_newline(input@, word_end as int, a) && a + 4 <= input@.len()
                        && input@.subrange(a, a + 4) == "Save"@ {
                        assert(nl);
                        assert(len - ahead >= 4);
                        let tail2 = input@.subrange(ahead as int, len as int);
                        assert(tail2.subrange(0, 4) =~= input@.subrange(
                            ahead as int,
                            ahead + 4,
                        ));
                    }
                }
            }
            if words == 24 {
                proof {
                    assert(scan_words(input@, phrase_start as int, cur0, k0) is None);
                }
                return None;
            }
        }
        // skip the whitespace between words
        while pos < len && is_space_char_exec(input.get_char(pos))
            invariant
                len == input@.len(),
                word_end <= pos <= len,
                space_run_end(input@, word_end as int) == space_run_end(input@, pos as int),
                forall|i: int| word_end <= i < pos ==> is_space_char(#[trigger] input@[i]),
            decreases len - pos,
        {
            proof {
                assert(space_run_end(input@, pos as int) == space_run_end(input@, pos + 1));
            }
            pos = pos + 1;
        }
        proof {
            assert(space_run_end(input@, pos as int) == pos as int);
            assert(pos as int == space_run_end(input@, word_end as int));
            assert(scan_words(input@, phrase_start as int, cur0, k0) == scan_words(
                input@,
                phrase_start as int,
                pos as int,
                words as int,
            ));
        }
    }
}

/// Pulls the account address out of the client binary's output.  The
/// output must be exactly one bech32 address line: the `penumbra1` prefix,
/// the rest of the address, and a final line break.
pub open spec fn spec_extract_address(s: Seq<char>) -> Option<Seq<char>> {
    if s.len() > "penumbra1"@.len() && has_prefix(s, "penumbra1"@) && s.last() == '\n' && (forall|
        i: int|
        0 <= i < s.len() - 1 ==> s[i] != '\n') {
        Some(s.take(s.len() - 1))
    } else {
        None
    }
}

/// Reads one address line.
pub fn extract_address(input: &str) -> (r: Option<String>)
    ensures
        spec_extract_address(input@) matches Some(a) ==> (r matches Some(out) && out@ == a),
        spec_extract_address(input@) is None ==> r is None,
{
    let len = input.unicode_len();
    let prefix = "penumbra1";
    let prefix_len = prefix.unicode_len();
    if len <= prefix_len {
        return None;
    }
    if !starts_with(input, prefix) {
        return None;
    }
    if input.get_char(len - 1) != '\n' {
        return None;
    }
    let mut i: usize = 0;
    while i < len - 1
        invariant
            len == input@.len(),
            0 <= i <= len - 1,
            forall|j: int| 0 <= j < i ==> input@[j] != '\n',
        decreases len - i,
    {
        if input.get_char(i) == '\n' {
            return None;
        }
        i = i + 1;
    }
    let out = input.substring_char(0, len - 1);
    proof {
        assert(out@ =~= input@.take(input@.len() - 1));
    }
    Some(out.to_owned())
}

/// The client binary of one environment: where it lives and how it is
/// initialized.
pub struct PcliBinary {
    /// The GRPC URL its configuration points at.
    pub grpc_url: String,
    /// The environment directory it belongs to.
    pub root_dir: String,
}

impl PcliBinary {
    /// The binary's own state directory.
    pub fn pcli_data_dir(&self) -> (r: String)
        ensures
            r@ == self.root_dir@ + "/"@ + "pcli"@,
    {
        path_join(self.root_dir.as_str(), "pcli")
    }

    /// Where the environment wires the binary.
    pub fn path(&self) -> (r: String)
        ensures
            r@ == self.root_dir@ + "/"@ + "bin/pcli"@,
    {
        path_join(self.root_dir.as_str(), "bin/pcli")
    }

    /// The arguments of the binary's own initialization subprocess: key
    /// generation, or import of a caller-supplied phrase piped through
    /// standard input, never through the argument list.
    pub fn init_args(&self, import_seed_phrase: bool) -> (r: Vec<String>)
        ensures
            r@.len() == 7,
            r@[0]@ == "--home"@,
            r@[1]@ == self.root_dir@ + "/"@ + "pcli"@,
            r@[2]@ == "init"@,
            r@[3]@ == "--grpc-url"@,
            r@[4]@ == self.grpc_url@,
            r@[5]@ == "soft-kms"@,
            import_seed_phrase ==> r@[6]@ == "import-phrase"@,
            !import_seed_phrase ==> r@[6]@ == "generate"@,
    {
        let mut args: Vec<String> = Vec::new();
        args.push("--home".to_owned());
        args.push(self.pcli_data_dir());
        args.push("init".to_owned());
        args.push("--grpc-url".to_owned());
        args.push(self.grpc_url.clone());
        args.push("soft-kms".to_owned());
        if import_seed_phrase {
            args.push("import-phrase".to_owned());
        } else {
            args.push("generate".to_owned());
        }
        args
    }

    /// The arguments that query the address at one index.
    pub fn address_args(&self, index: u64) -> (r: Vec<String>)
        ensures
            r@.len() == 5,
            r@[0]@ == "--home"@,
            r@[1]@ == self.root_dir@ + "/"@ + "pcli"@,
            r@[2]@ == "view"@,
            r@[3]@ == "address"@,
            r@[4]@ == crate::strutil::dec_str(index as nat),
    {
        let mut args: Vec<String> = Vec::new();
        args.push("--home".to_owned());
        args.push(self.pcli_data_dir());
        args.push("view".to_owned());
        args.push("address".to_owned());
        args.push(u64_to_string(index));
        args
    }

    /// The arguments that reset the client's view state.
    pub fn reset_args(&self) -> (r: Vec<String>)
        ensures
            r@.len() == 4,
            r@[0]@ == "--home"@,
            r@[1]@ == self.root_dir@ + "/"@ + "pcli"@,
            r@[2]@ == "view"@,
            r@[3]@ == "reset"@,
    {
        let mut args: Vec<String> = Vec::new();
        args.push("--home".to_owned());
        args.push(self.pcli_data_dir());
        args.push("view".to_owned());
        args.push("reset".to_owned());
        args
    }

    /// What the initialization run produced: a failed exit carries the
    /// captured standard error; an import returns the imported phrase; a
    /// generation run's output must yield a phrase through the banner
    /// adapter, or the output could not be decoded.
    pub fn handle_init_output(
        &self,
        success: bool,
        stdout: &str,
        stderr: &str,
        imported_seed_phrase: Option<String>,
    ) -> (r: Result<String, Error>)
        ensures
            !success ==> (r matches Err(e) && e matches Error::SubprocessFailure(t) && t@
                == stderr@),
            success ==> (imported_seed_phrase matches Some(p) ==> (r matches Ok(out) && out@
                == p@)),
            success && imported_seed_phrase is None ==> match r {
                Ok(out) => spec_extract_seed_phrase(stdout@) == Some(out@),
                Err(e) => e is SerializationFailure && spec_extract_seed_phrase(stdout@) is None,
            },
    {
        if !success {
            return Err(Error::SubprocessFailure(stderr.to_owned()));
        }
        match imported_seed_phrase {
            Some(p) => Ok(p),
            None => match extract_seed_phrase(stdout) {
                Some(phrase) => Ok(phrase),
                None => Err(Error::SerializationFailure),
            },
        }
    }

    /// What the address query produced.
    pub fn handle_address_output(&self, success: bool, stdout: &str, stderr: &str) -> (r: Result<
        String,
        Error,
    >)
        ensures
            !success ==> (r matches Err(e) && e matches Error::SubprocessFailure(t) && t@
                == stderr@),
            success ==> match r {
                Ok(out) => spec_extract_address(stdout@) == Some(out@),
                Err(e) => e is SerializationFailure && spec_extract_address(stdout@) is None,
            },
    {
        if !success {
            return Err(Error::SubprocessFailure(stderr.to_owned()));
        }
        match extract_address(stdout) {
            Some(addr) => Ok(addr),
            None => Err(Error::SerializationFailure),
        }
    }
}

/// The view daemon of one environment.
pub struct PclientdBinary {
    /// The GRPC URL its configuration points at.
    pub grpc_url: String,
    /// The environment directory it belongs to.
    pub root_dir: String,
}

impl PclientdBinary {
    /// The binary's own state directory.
    pub fn pclientd_data_dir(&self) -> (r: String)
        ensures
            r@ == self.root_dir@ + "/"@ + "pclientd"@,
    {
        path_join(self.root_dir.as_str(), "pclientd")
    }

    /// Where the environment wires the binary.
    pub fn path(&self) -> (r: String)
        ensures
            r@ == self.root_dir@ + "/"@ + "bin/pclientd"@,
    {
        path_join(self.root_dir.as_str(), "bin/pclientd")
    }

    /// The arguments of the daemon's initialization subprocess; the seed
    /// phrase is piped through standard input, never through the argument
    /// list.
    pub fn init_args(&self) -> (r: Vec<String>)
        ensures
            r@.len() == 5,
            r@[0]@ == "--home"@,
            r@[1]@ == self.root_dir@ + "/"@ + "pclientd"@,
            r@[2]@ == "init"@,
            r@[3]@ == "--grpc-url"@,
            r@[4]@ == self.grpc_url@,
    {
        let mut args: Vec<String> = Vec::new();
        args.push("--home".to_owned());
        args.push(self.pclientd_data_dir());
        args.push("init".to_owned());
        args.push("--grpc-url".to_owned());
        args.push(self.grpc_url.clone());
        args
    }

    /// What the initialization run produced.
    pub fn handle_init_output(&self, success: bool, stdout: &str, stderr: &str) -> (r: Result<
        String,
        Error,
    >)
        ensures
            success ==> (r matches Ok(out) && out@ == stdout@),
            !success ==> (r matches Err(e) && e matches Error::SubprocessFailure(t) && t@
                == stderr@),
    {
        if success {
            Ok(stdout.to_owned())
        } else {
            Err(Error::SubprocessFailure(stderr.to_owned()))
        }
    }
}

/// The full node of one environment.
pub struct PdBinary {
    /// The URL used to join an existing network.
    pub pd_join_url: String,
    /// The environment directory it belongs to.
    pub root_dir: String,
}

impl PdBinary {
    /// The node's network state directory.
    pub fn network_data_dir(&self) -> (r: String)
        ensures
            r@ == self.root_dir@ + "/"@ + "network_data"@,
    {
        path_join(self.root_dir.as_str(), "network_data")
    }

    /// Where the environment wires the binary.
    pub fn path(&self) -> (r: String)
        ensures
            r@ == self.root_dir@ + "/"@ + "bin/pd"@,
    {
        path_join(self.root_dir.as_str(), "bin/pd")
    }

    /// The arguments of the node's network initialization: generating a
    /// dev network needs an external address and a pre-funded allocation
    /// address; joining needs a moniker, an external address and the join
    /// URL.
    pub fn init_args(
        &self,
        generate_network: bool,
        external_address: &str,
        moniker: &str,
        allocation_address: Option<&str>,
    ) -> (r: Vec<String>)
        ensures
            generate_network ==> {
                &&& r@.len() == (match allocation_address {
                    Some(_) => 8int,
                    None => 6int,
                })
                &&& r@[0]@ == "network"@
                &&& r@[1]@ == "--network-dir"@
                &&& r@[2]@ == self.root_dir@ + "/"@ + "network_data"@
                &&& r@[3]@ == "generate"@
                &&& r@[4]@ == "--external-addresses"@
                &&& r@[5]@ == external_address@
                &&& allocation_address matches Some(a) ==> (r@[6]@ == "--allocation-address"@
                    && r@[7]@ == a@)
            },
            !generate_network ==> {
                &&& r@.len() == 9
                &&& r@[0]@ == "network"@
                &&& r@[1]@ == "--network-dir"@
                &&& r@[2]@ == self.root_dir@ + "/"@ + "network_data"@
                &&& r@[3]@ == "join"@
                &&& r@[4]@ == "--moniker"@
                &&& r@[5]@ == moniker@
                &&& r@[6]@ == "--external-address"@
                &&& r@[7]@ == external_address@
                &&& r@[8]@ == self.pd_join_url@
            },
    {
        let mut args: Vec<String> = Vec::new();
        args.push("network".to_owned());
        args.push("--network-dir".to_owned());
        args.push(self.network_data_dir());
        if generate_network {
            args.push("generate".to_owned());
            args.push("--external-addresses".to_owned());
            args.push(external_address.to_owned());
            match allocation_address {
                Some(a) => {
                    args.push("--allocation-address".to_owned());
                    args.push(a.to_owned());
                },
                None => {},
            }
        } else {
            args.push("join".to_owned());
            args.push("--moniker".to_owned());
            args.push(moniker.to_owned());
            args.push("--external-address".to_owned());
            args.push(external_address.to_owned());
            args.push(self.pd_join_url.clone());
        }
        args
    }

    /// What the initialization run produced.
    pub fn handle_init_output(&self, success: bool, stdout: &str, stderr: &str) -> (r: Result<
        String,
        Error,
    >)
        ensures
            success ==> (r matches Ok(out) && out@ == stdout@),
            !success ==> (r matches Err(e) && e matches Error::SubprocessFailure(t) && t@
                == stderr@),
    {
        if success {
            Ok(stdout.to_owned())
        } else {
            Err(Error::SubprocessFailure(stderr.to_owned()))
        }
    }
}

impl Environment {
    /// The environment's client binary.
    pub fn get_pcli_binary(&self) -> (r: PcliBinary)
        ensures
            r.grpc_url@ == spec_metadata(self@).grpc_url,
            r.root_dir@ == spec_metadata(self@).root_dir,
    {
        PcliBinary {
            grpc_url: self.metadata().grpc_url.clone(),
            root_dir: self.metadata().root_dir.clone(),
        }
    }

    /// The environment's view daemon.
    pub fn get_pclientd_binary(&self) -> (r: PclientdBinary)
        ensures
            r.grpc_url@ == spec_metadata(self@).grpc_url,
            r.root_dir@ == spec_metadata(self@).root_dir,
    {
        PclientdBinary {
            grpc_url: self.metadata().grpc_url.clone(),
            root_dir: self.metadata().root_dir.clone(),
        }
    }

    /// The environment's full node.
    pub fn get_pd_binary(&self) -> (r: PdBinary)
        ensures
            r.pd_join_url@ == spec_metadata(self@).pd_join_url,
            r.root_dir@ == spec_metadata(self@).root_dir,
    {
        PdBinary {
            pd_join_url: self.metadata().pd_join_url.clone(),
            root_dir: self.metadata().root_dir.clone(),
        }
    }
}

} // verus!
