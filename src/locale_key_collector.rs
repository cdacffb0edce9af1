//! Finds the invocations of the translation macro `t!()` (or
//! `rust_i18n::t!()`) in source files and records the locale key that each
//! one passes, with where it stands.

use vstd::prelude::*;

verus! {

/// The first token of a macro invocation's arguments.
#[derive(Debug, PartialEq)]
pub enum FirstToken {
    /// The invocation has no argument.
    Missing,
    /// A literal, as written in the source (a string literal keeps its quotes).
    Literal(String),
    /// Any other token: an identifier, a punctuation or a group.
    Other,
}

/// What the syntax tree tells of one macro invocation.
#[derive(Debug, PartialEq)]
pub struct MacroInvocation {
    /// Whether the path starts with `::`.
    pub leading_colon: bool,
    /// The identifiers of the path's segments, in order.
    pub segments: Vec<String>,
    /// The first token of the arguments.
    pub first_token: FirstToken,
    /// Line of the start of the invocation, starts from 1.
    pub line: usize,
    /// Column of the start of the invocation, starts from 0.
    pub column: usize,
}

/// Why a translation macro invocation does not give a locale key.
#[derive(Debug, Clone, Copy, PartialEq, Eq)]
pub enum CollectError {
    /// `t!()` needs at least 1 argument.
    MissingArgument,
    /// The first argument to `t!()` should be a string literal.
    NotStringLiteral,
}

/// Info about a locale key.
#[derive(Debug, Clone, PartialEq)]
pub struct LocaleKey {
    /// Locale key.
    pub key: String,
    /// Path of the file where the `t!()` macro is invoked.
    pub file: String,
    /// Line number of the start of invocation, starts from 1.
    pub line: usize,
    /// Column number of the start of invocation, starts from 0.
    pub column: usize,
}

/// One use of a locale key in the source code.
pub struct KeyUsage {
    pub key: Seq<char>,
    pub file: Seq<char>,
    pub line: usize,
    pub column: usize,
}

impl View for LocaleKey {
    type V = KeyUsage;

    open spec fn view(&self) -> KeyUsage {
        KeyUsage { key: self.key@, file: self.file@, line: self.line, column: self.column }
    }
}

/// Whether a macro path names the translation macro: `t`, or `rust_i18n::t`,
/// without a leading `::`.
pub open spec fn is_translation_path(leading_colon: bool, segments: Seq<Seq<char>>) -> bool {
    !leading_colon && (segments == seq!["t"@] || segments == seq!["rust_i18n"@, "t"@])
}

/// The identifiers of a path.
pub open spec fn segments_view(segments: Seq<String>) -> Seq<Seq<char>> {
    segments.map_values(|s: String| s@)
}

/// Whether an invocation is one of the translation macro.
pub open spec fn is_translation_invocation(i: MacroInvocation) -> bool {
    is_translation_path(i.leading_colon, segments_view(i.segments@))
}

/// Whether a literal's text is a string literal: it opens with a quote.
pub open spec fn is_string_literal(text: Seq<char>) -> bool {
    text.len() > 0 && text[0] == '"'
}

/// The position of the first character at or after `i` that is not a quote,
/// or the length.
pub open spec fn first_non_quote_from(s: Seq<char>, i: int) -> int
    decreases s.len() - i,
{
    if i < 0 || i >= s.len() {
        s.len() as int
    } else if s[i] != '"' {
        i
    } else {
        first_non_quote_from(s, i + 1)
    }
}

/// The end of the last character before `j` that is not a quote, or 0.
pub open spec fn end_non_quote_from(s: Seq<char>, j: int) -> int
    decreases j,
{
    if j <= 0 || j > s.len() {
        0
    } else if s[j - 1] != '"' {
        j
    } else {
        end_non_quote_from(s, j - 1)
    }
}

/// The text with the quote characters at both of its ends removed.
pub open spec fn trim_quotes(s: Seq<char>) -> Seq<char> {
    let a = first_non_quote_from(s, 0);
    let b = end_non_quote_from(s, s.len() as int);
    if a < b {
        s.subrange(a, b)
    } else {
        Seq::empty()
    }
}

/// The key usage that an invocation of the translation macro in `file` gives.
pub open spec fn usage_of(i: MacroInvocation, file: Seq<char>) -> Result<KeyUsage, CollectError> {
    match i.first_token {
        FirstToken::Missing => Err(CollectError::MissingArgument),
        FirstToken::Other => Err(CollectError::NotStringLiteral),
        FirstToken::Literal(text) => if is_string_literal(text@) {
            Ok(KeyUsage { key: trim_quotes(text@), file, line: i.line, column: i.column })
        } else {
            Err(CollectError::NotStringLiteral)
        },
    }
}

/// The key usages that the invocations of a file give, in order, or the
/// error of the first translation macro invocation that gives none.
pub open spec fn usages_of(invocations: Seq<MacroInvocation>, file: Seq<char>) -> Result<Seq<KeyUsage>, CollectError>
    decreases invocations.len(),
{
    if invocations.len() == 0 {
        Ok(Seq::empty())
    } else {
        match usages_of(invocations.drop_last(), file) {
            Err(e) => Err(e),
            Ok(us) => if is_translation_invocation(invocations.last()) {
                match usage_of(invocations.last(), file) {
                    Ok(u) => Ok(us.push(u)),
                    Err(e) => Err(e),
                }
            } else {
                Ok(us)
            },
        }
    }
}

/// Whether a macro path names the translation macro.
pub fn is_translation_macro(leading_colon: bool, segments: &Vec<String>) -> (r: bool)
    ensures
        r == is_translation_path(leading_colon, segments_view(segments@)),
{
    proof {
        reveal_strlit("t");
        reveal_strlit("rust_i18n");
    }
    if leading_colon {
        return false;
    }
    let t = String::from_str("t");
    let alias = String::from_str("rust_i18n");
    let segs = Ghost(segments_view(segments@));
    assert(segs@.len() == segments@.len());
    assert(seq!["t"@].len() == 1);
    assert(seq!["rust_i18n"@, "t"@].len() == 2);
    if segments.len() == 1 {
        let r = segments[0].eq(&t);
        assert(segs@[0] == segments@[0]@);
        assert(r ==> segs@ =~= seq!["t"@]);
        assert(segs@ == seq!["t"@] ==> segs@[0] == "t"@);
        assert(seq!["rust_i18n"@, "t"@].len() == 2);
        r
    } else if segments.len() == 2 {
        let r = segments[0].eq(&alias) && segments[1].eq(&t);
        assert(segs@[0] == segments@[0]@ && segs@[1] == segments@[1]@);
        assert(r ==> segs@ =~= seq!["rust_i18n"@, "t"@]);
        assert(segs@ == seq!["rust_i18n"@, "t"@] ==> segs@[0] == "rust_i18n"@ && segs@[1] == "t"@);
        r
    } else {
        assert(seq!["rust_i18n"@, "t"@].len() == 2);
        false
    }
}

/// The text with the quote characters at both of its ends removed.
fn trim_quote_chars(s: &str) -> (r: String)
    ensures
        r@ == trim_quotes(s@),
{
    let len = s.unicode_len();
    let mut a: usize = 0;
    while a < len && s.get_char(a) == '"'
        invariant
            a <= len,
            len == s@.len(),
            first_non_quote_from(s@, 0) == first_non_quote_from(s@, a as int),
        decreases len - a,
    {
        a += 1;
    }
    let mut b: usize = len;
    while b > 0 && s.get_char(b - 1) == '"'
        invariant
            b <= len,
            len == s@.len(),
            end_non_quote_from(s@, len as int) == end_non_quote_from(s@, b as int),
        decreases b,
    {
        b -= 1;
    }
    if a < b {
        String::from_str(s.substring_char(a, b))
    } else {
        String::new()
    }
}

impl LocaleKey {
    /// The locale key that an invocation of the translation macro in `file`
    /// passes, with where the invocation starts.
    pub fn new(mac: &MacroInvocation, file: &String) -> (r: Result<LocaleKey, CollectError>)
        ensures
            r matches Ok(k) ==> usage_of(*mac, file@) == Ok::<_, CollectError>(k@),
            r matches Err(e) ==> usage_of(*mac, file@) == Err::<KeyUsage, _>(e),
    {
        match &mac.first_token {
            FirstToken::Missing => Err(CollectError::MissingArgument),
            FirstToken::Other => Err(CollectError::NotStringLiteral),
            FirstToken::Literal(text) => {
                let s = text.as_str();
                if s.unicode_len() > 0 && s.get_char(0) == '"' {
                    Ok(LocaleKey { key: trim_quote_chars(s), file: file.clone(), line: mac.line, column: mac.column })
                } else {
                    Err(CollectError::NotStringLiteral)
                }
            },
        }
    }
}

/// The key usages that a sequence of locale keys records.
pub open spec fn usages_view(keys: Seq<LocaleKey>) -> Seq<KeyUsage> {
    keys.map_values(|k: LocaleKey| k@)
}

/// Collector that is responsible for a single file.
pub struct SingleFileLocalenKeyCollector {
    /// File path.
    pub file: String,
    /// Keys collected from `file`.
    pub locale_keys: Vec<LocaleKey>,
}

impl SingleFileLocalenKeyCollector {
    /// A collector for `file` with no key collected yet.
    pub fn new(file: String) -> (r: Self)
        ensures
            r.file@ == file@,
            r.locale_keys@ == Seq::<LocaleKey>::empty(),
    {
        SingleFileLocalenKeyCollector { file, locale_keys: Vec::new() }
    }

    /// Records the locale key of an invocation of the translation macro;
    /// other macro invocations are passed over.
    pub fn visit_macro(&mut self, i: &MacroInvocation) -> (r: Result<(), CollectError>)
        ensures
            final(self).file == old(self).file,
            !is_translation_invocation(*i) ==> r is Ok && final(self).locale_keys@ == old(self).locale_keys@,
            is_translation_invocation(*i) ==> match usage_of(*i, old(self).file@) {
                Ok(u) => r is Ok && usages_view(final(self).locale_keys@) == usages_view(old(self).locale_keys@).push(u),
                Err(e) => r == Err::<(), _>(e) && final(self).locale_keys@ == old(self).locale_keys@,
            },
    {
        if is_translation_macro(i.leading_colon, &i.segments) {
            match LocaleKey::new(i, &self.file) {
                Ok(key) => {
                    let ghost before = self.locale_keys@;
                    self.locale_keys.push(key);
                    assert(usages_view(self.locale_keys@) =~= usages_view(before).push(key@));
                    Ok(())
                },
                Err(e) => Err(e),
            }
        } else {
            Ok(())
        }
    }

    /// Visits the macro invocations of the file in order, up to the first
    /// one that gives an error.
    pub fn visit_macros(&mut self, invocations: &Vec<MacroInvocation>) -> (r: Result<(), CollectError>)
        ensures
            final(self).file == old(self).file,
            match usages_of(invocations@, old(self).file@) {
                Ok(us) => r is Ok && usages_view(final(self).locale_keys@) == usages_view(old(self).locale_keys@) + us,
                Err(e) => r == Err::<(), _>(e),
            },
    {
        let ghost file = self.file@;
        let ghost start = usages_view(self.locale_keys@);
        let mut n: usize = 0;
        while n < invocations.len()
            invariant
                n <= invocations.len(),
                self.file@ == file,
                self.file == old(self).file,
                usages_of(invocations@.take(n as int), file) matches Ok(us)
                    && usages_view(self.locale_keys@) == start + us,
            decreases invocations.len() - n,
        {
            let ghost before = self.locale_keys@;
            assert(invocations@.take(n + 1).drop_last() =~= invocations@.take(n as int));
            assert(invocations@.take(n + 1).last() == invocations@[n as int]);
            match self.visit_macro(&invocations[n]) {
                Ok(()) => {},
                Err(e) => {
                    proof {
                        lemma_usages_error_persists(invocations@, file, n + 1);
                    }
                    return Err(e);
                },
            }
            n += 1;
        }
        assert(invocations@.take(n as int) =~= invocations@);
        Ok(())
    }
}

/// Once the invocations up to `k` give an error, so do all of them.
proof fn lemma_usages_error_persists(invocations: Seq<MacroInvocation>, file: Seq<char>, k: int)
    requires
        0 <= k <= invocations.len(),
        usages_of(invocations.take(k), file) is Err,
    ensures
        usages_of(invocations, file) == usages_of(invocations.take(k), file),
    decreases invocations.len() - k,
{
    if k == invocations.len() {
        assert(invocations.take(k) =~= invocations);
    } else {
        assert(invocations.drop_last().take(k) =~= invocations.take(k));
        lemma_usages_error_persists(invocations.drop_last(), file, k);
    }
}

/// The macro invocations of each file, with the file's path.
pub open spec fn sources_view(files: Seq<(String, Vec<MacroInvocation>)>) -> Seq<(Seq<char>, Seq<MacroInvocation>)> {
    files.map_values(|f: (String, Vec<MacroInvocation>)| (f.0@, f.1@))
}

/// The key usages of all files, file after file, or the error of the first
/// file that has a malformed translation macro invocation.
pub open spec fn usages_of_files(files: Seq<(Seq<char>, Seq<MacroInvocation>)>) -> Result<Seq<KeyUsage>, CollectError>
    decreases files.len(),
{
    if files.len() == 0 {
        Ok(Seq::empty())
    } else {
        match usages_of_files(files.drop_last()) {
            Err(e) => Err(e),
            Ok(us) => match usages_of(files.last().1, files.last().0) {
                Ok(vs) => Ok(us + vs),
                Err(e) => Err(e),
            },
        }
    }
}

/// Once the files up to `k` give an error, so do all of them.
proof fn lemma_files_error_persists(files: Seq<(Seq<char>, Seq<MacroInvocation>)>, k: int)
    requires
        0 <= k <= files.len(),
        usages_of_files(files.take(k)) is Err,
    ensures
        usages_of_files(files) == usages_of_files(files.take(k)),
    decreases files.len() - k,
{
    if k == files.len() {
        assert(files.take(k) =~= files);
    } else {
        assert(files.drop_last().take(k) =~= files.take(k));
        lemma_files_error_persists(files.drop_last(), k);
    }
}

/// A collector that gathers the locale keys of the translation macro
/// invocations of every file, file after file.
#[derive(Debug)]
pub struct LocaleKeyCollector {
    /// Collected locale keys.
    locale_keys: Vec<LocaleKey>,
}

impl LocaleKeyCollector {
    /// The usages collected so far, in order.
    pub closed spec fn view(&self) -> Seq<KeyUsage> {
        usages_view(self.locale_keys@)
    }

    /// Creates a new collector with keys set empty.
    pub fn new() -> (r: Self)
        ensures
            r@ == Seq::<KeyUsage>::empty(),
    {
        let r = Self { locale_keys: Vec::new() };
        assert(r@ =~= Seq::<KeyUsage>::empty());
        r
    }

    /// Collects the keys of the macro invocations of one file, given in the
    /// order of the file. On an error nothing is added.
    pub fn collect_file(&mut self, file: &String, invocations: &Vec<MacroInvocation>) -> (r: Result<(), CollectError>)
        ensures
            match usages_of(invocations@, file@) {
                Ok(us) => r is Ok && final(self)@ == old(self)@ + us,
                Err(e) => r == Err::<(), _>(e) && final(self)@ == old(self)@,
            },
    {
        let mut single_file_collector = SingleFileLocalenKeyCollector::new(file.clone());
        let r = single_file_collector.visit_macros(invocations);
        assert(usages_view(single_file_collector.locale_keys@) =~= Seq::<KeyUsage>::empty() + usages_view(single_file_collector.locale_keys@));
        match r {
            Ok(()) => {
                let ghost before = self.locale_keys@;
                let mut keys = single_file_collector.locale_keys;
                self.locale_keys.append(&mut keys);
                assert(usages_view(self.locale_keys@) =~= usages_view(before) + usages_view(single_file_collector.locale_keys@));
                Ok(())
            },
            Err(e) => Err(e),
        }
    }

    /// Collects the keys of the macro invocations of `files`, each given with
    /// the invocations of its syntax tree in the order of the file. Stops at
    /// the first malformed translation macro invocation.
    pub fn collect(&mut self, files: &Vec<(String, Vec<MacroInvocation>)>) -> (r: Result<(), CollectError>)
        ensures
            match usages_of_files(sources_view(files@)) {
                Ok(us) => r is Ok && final(self)@ == old(self)@ + us,
                Err(e) => r == Err::<(), _>(e),
            },
    {
        let ghost fs = sources_view(files@);
        let ghost start = self@;
        let mut i: usize = 0;
        while i < files.len()
            invariant
                i <= files.len(),
                fs == sources_view(files@),
                start == old(self)@,
                usages_of_files(fs.take(i as int)) matches Ok(us) && self@ == start + us,
            decreases files.len() - i,
        {
            assert(fs.take(i + 1).drop_last() =~= fs.take(i as int));
            assert(fs.take(i + 1).last() == (files@[i as int].0@, files@[i as int].1@));
            let ghost before = self@;
            let ghost us = usages_of_files(fs.take(i as int))->Ok_0;
            let (file, invocations) = &files[i];
            match self.collect_file(file, invocations) {
                Ok(()) => {
                    let ghost vs = usages_of(invocations@, file@)->Ok_0;
                    assert(self@ =~= start + (us + vs));
                },
                Err(e) => {
                    proof {
                        lemma_files_error_persists(fs, i + 1);
                    }
                    return Err(e);
                },
            }
            i += 1;
        }
        assert(fs.take(i as int) =~= fs);
        Ok(())
    }

    /// Gets the reference to the collected locale keys.
    pub fn locale_keys(&self) -> (r: &[LocaleKey])
        ensures
            usages_view(r@) == self@,
    {
        self.locale_keys.as_slice()
    }
}

} // verus!
