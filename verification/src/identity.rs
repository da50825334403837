//! How a client first shows who it is: the `Authorization` header of HTTP
//! basic authentication, read and checked against the password file.

use vstd::prelude::*;
use vstd::string::StrSliceExecFns;
use vstd::utf8::{decode_utf8, encode_utf8, valid_utf8};

verus! {

/// Whether `s` begins with `prefix`.
pub open spec fn begins_with(s: Seq<char>, prefix: Seq<char>) -> bool {
    prefix.len() <= s.len() && s.take(prefix.len() as int) == prefix
}

/// `s` without any repetition of `prefix` at its start.
pub open spec fn without_prefixes(s: Seq<char>, prefix: Seq<char>) -> Seq<char>
    decreases s.len(),
{
    if prefix.len() > 0 && begins_with(s, prefix) {
        without_prefixes(s.skip(prefix.len() as int), prefix)
    } else {
        s
    }
}

/// Whether `i` is the first place in `s` at which `c` stands.
pub open spec fn first_at(s: Seq<char>, c: char, i: int) -> bool {
    &&& 0 <= i < s.len()
    &&& s[i] == c
    &&& forall|j: int| 0 <= j < i ==> s[j] != c
}

/// `s` cut in two at the first `c`, which belongs to neither part; or
/// nothing where `c` does not occur.
pub open spec fn split_at_first(s: Seq<char>, c: char) -> Option<(Seq<char>, Seq<char>)> {
    if exists|i: int| first_at(s, c, i) {
        let i = choose|i: int| first_at(s, c, i);
        Some((s.take(i), s.skip(i + 1)))
    } else {
        None
    }
}

/// Whether `prefix` stands in `text` at the place `from`.
fn stands_at(text: &str, from: usize, prefix: &str) -> (stands: bool)
    requires
        from <= text@.len(),
    ensures
        stands == begins_with(text@.skip(from as int), prefix@),
{
    let n = text.unicode_len();
    let m = prefix.unicode_len();
    if n - from < m {
        return false;
    }
    let mut k: usize = 0;
    while k < m
        invariant
            k <= m,
            m == prefix@.len(),
            n == text@.len(),
            from + m <= n,
            forall|j: int| 0 <= j < k ==> text@[from + j] == prefix@[j],
        decreases m - k,
    {
        if text.get_char(from + k) != prefix.get_char(k) {
            assert(text@.skip(from as int).take(m as int)[k as int] != prefix@[k as int]);
            return false;
        }
        k += 1;
    }
    assert(text@.skip(from as int).take(m as int) =~= prefix@);
    true
}

/// The text that is left when every repetition of `prefix` is taken from
/// the start of `text`.
pub fn strip_prefixes<'a>(text: &'a str, prefix: &str) -> (rest: &'a str)
    ensures
        rest@ == without_prefixes(text@, prefix@),
{
    let n = text.unicode_len();
    let m = prefix.unicode_len();
    if m == 0 {
        return text;
    }
    let mut from: usize = 0;
    assert(text@.skip(0) =~= text@);
    while stands_at(text, from, prefix)
        invariant
            from <= n,
            n == text@.len(),
            m == prefix@.len(),
            m > 0,
            without_prefixes(text@, prefix@) == without_prefixes(
                text@.skip(from as int),
                prefix@,
            ),
        decreases n - from,
    {
        assert(text@.skip(from as int).skip(m as int) =~= text@.skip(from + m));
        from += m;
    }
    assert(text@.subrange(from as int, n as int) =~= text@.skip(from as int));
    text.substring_char(from, n)
}

/// Cuts `text` in two at its first `separator`.
pub fn split_once(text: &str, separator: char) -> (parts: Option<(String, String)>)
    ensures
        match parts {
            Some((before, after)) => split_at_first(text@, separator) == Some(
                (before@, after@),
            ),
            None => split_at_first(text@, separator) is None,
        },
{
    let n = text.unicode_len();
    let mut i: usize = 0;
    while i < n
        invariant
            i <= n,
            n == text@.len(),
            forall|j: int| 0 <= j < i ==> text@[j] != separator,
        decreases n - i,
    {
        if text.get_char(i) == separator {
            proof {
                assert(first_at(text@, separator, i as int));
                let c = choose|c: int| first_at(text@, separator, c);
                assert(c == i);
                assert(text@.subrange(0, i as int) =~= text@.take(i as int));
                assert(text@.subrange(i + 1, n as int) =~= text@.skip(i + 1));
            }
            let before = text.substring_char(0, i).to_owned();
            let after = text.substring_char(i + 1, n).to_owned();
            return Some((before, after));
        }
        i += 1;
    }
    None
}

/// The bytes that the standard base64 alphabet, with padding, reads from
/// a piece of text; nothing where the text is not such an encoding.
pub uninterp spec fn base64_decoded(text: Seq<char>) -> Option<Seq<u8>>;

/// A password hash as `password_hash` reads it from a PHC string.
/// Opaque here.
#[verifier::external_type_specification]
#[verifier::external_body]
pub struct ExPasswordHash<'a>(argon2::PasswordHash<'a>);

/// The password hash that `PasswordHash::new` reads from a PHC string,
/// or nothing where the text is no such string.
pub uninterp spec fn parsed_hash(hashed_password: Seq<char>) -> Option<
    argon2::PasswordHash<'static>,
>;

/// Whether `Argon2::default().verify_password` accepts the password for
/// the hash: the password hashes, with the parameters and the salt of
/// the hash, to the same output.
pub uninterp spec fn hash_admits(hash: argon2::PasswordHash<'static>, password: Seq<char>) -> bool;

/// Whether the password is the one that the PHC string `hashed_password`
/// holds the hash of. A string that is no PHC string admits no password.
pub open spec fn password_verified(hashed_password: Seq<char>, password: Seq<char>) -> bool {
    match parsed_hash(hashed_password) {
        Some(hash) => hash_admits(hash, password),
        None => false,
    }
}

/// The values of some bytes that may be absent.
pub open spec fn bytes_view(bytes: Option<Vec<u8>>) -> Option<Seq<u8>> {
    match bytes {
        Some(b) => Some(b@),
        None => None,
    }
}

/// Calls `decode` of `base64`'s `STANDARD` engine. The result is a
/// function of the text alone, named [`base64_decoded`].
#[verifier::external_body]
fn base64_decode(text: &str) -> (bytes: Option<Vec<u8>>)
    ensures
        bytes_view(bytes) == base64_decoded(text@),
{
    base64::Engine::decode(&base64::engine::general_purpose::STANDARD, text).ok()
}

/// Calls `String::from_utf8`, which accepts exactly the byte strings
/// that are UTF-8 and leaves the bytes as they are.
#[verifier::external_body]
fn text_from_utf8(bytes: Vec<u8>) -> (text: Option<String>)
    ensures
        text is Some <==> valid_utf8(bytes@),
        text matches Some(t) ==> encode_utf8(t@) == bytes@,
{
    String::from_utf8(bytes).ok()
}

/// Calls `PasswordHash::new`. The result is a function of the text
/// alone, named [`parsed_hash`].
#[verifier::external_body]
fn parse_hash<'a>(hashed_password: &'a str) -> (parsed: Option<argon2::PasswordHash<'a>>)
    ensures
        parsed == parsed_hash(hashed_password@),
{
    argon2::PasswordHash::new(hashed_password).ok()
}

/// Calls `verify_password` of `Argon2::default()`. The result is a
/// function of the hash and the password alone, named [`hash_admits`].
#[verifier::external_body]
fn verify_password<'a>(password: &str, hash: &argon2::PasswordHash<'a>) -> (verified: bool)
    ensures
        verified == hash_admits(*hash, password@),
{
    argon2::PasswordVerifier::verify_password(
        &argon2::Argon2::default(),
        password.as_bytes(),
        hash,
    ).is_ok()
}

/// Whether the password is the one that the PHC string holds the hash
/// of.
fn password_matches(hashed_password: &str, password: &str) -> (verified: bool)
    ensures
        verified == password_verified(hashed_password@, password@),
{
    match parse_hash(hashed_password) {
        Some(hash) => verify_password(password, &hash),
        None => false,
    }
}

/// The text that some bytes spell in UTF-8, where they spell any.
pub open spec fn spelled(bytes: Seq<u8>) -> Option<Seq<char>> {
    if valid_utf8(bytes) {
        Some(decode_utf8(bytes))
    } else {
        None
    }
}

/// The username and the password that an `Authorization` header of basic
/// authentication carries.
///
/// What follows the word `Basic` is base64 for the username, a colon and
/// the password. A header that is not base64, does not spell text, or
/// holds no colon carries nothing.
pub open spec fn carried(authorization: Seq<char>) -> Option<(Seq<char>, Seq<char>)> {
    match base64_decoded(without_prefixes(authorization, "Basic "@)) {
        None => None,
        Some(bytes) => match spelled(bytes) {
            None => None,
            Some(text) => split_at_first(text, ':'),
        },
    }
}

/// The values of a username and a password that may be absent.
pub open spec fn pair_view(pair: Option<(String, String)>) -> Option<(Seq<char>, Seq<char>)> {
    match pair {
        Some((a, b)) => Some((a@, b@)),
        None => None,
    }
}

/// Reads the username and the password from an `Authorization` header.
pub fn basic_credentials(authorization: &str) -> (credentials: Option<(String, String)>)
    ensures
        pair_view(credentials) == carried(authorization@),
{
    let encoded = strip_prefixes(authorization, "Basic ");
    let bytes = match base64_decode(encoded) {
        Some(bytes) => bytes,
        None => {
            return None;
        },
    };
    let ghost raw = bytes@;
    let text = match text_from_utf8(bytes) {
        Some(text) => text,
        None => {
            return None;
        },
    };
    proof {
        vstd::utf8::encode_utf8_decode_utf8(text@);
    }
    split_once(text.as_str(), ':')
}

/// One line of the password file: a username and the PHC string of the
/// user's password hash.
#[derive(Debug, PartialEq, Eq)]
pub struct PasswordEntry {
    pub username: String,
    pub hashed_password: String,
}

impl View for PasswordEntry {
    type V = (Seq<char>, Seq<char>);

    open spec fn view(&self) -> (Seq<char>, Seq<char>) {
        (self.username@, self.hashed_password@)
    }
}

/// The password hashes of the users, in the order of the password file.
/// Of two entries for one username the later one counts.
#[derive(Debug, PartialEq, Eq)]
pub struct Passwords {
    pub entries: Vec<PasswordEntry>,
}

/// The values of some entries, in order.
pub open spec fn entry_views(entries: Seq<PasswordEntry>) -> Seq<(Seq<char>, Seq<char>)> {
    entries.map_values(|e: PasswordEntry| e@)
}

impl View for Passwords {
    type V = Seq<(Seq<char>, Seq<char>)>;

    open spec fn view(&self) -> Seq<(Seq<char>, Seq<char>)> {
        entry_views(self.entries@)
    }
}

/// The hash that counts for `username`: that of the last entry with the
/// name.
pub open spec fn hash_for(entries: Seq<(Seq<char>, Seq<char>)>, username: Seq<char>) -> Option<
    Seq<char>,
>
    decreases entries.len(),
{
    if entries.len() == 0 {
        None
    } else if entries.last().0 == username {
        Some(entries.last().1)
    } else {
        hash_for(entries.drop_last(), username)
    }
}

/// Whether the password file lets `username` in with `password`: the
/// user has an entry, and the hash that counts for the user is that of
/// the password.
pub open spec fn admitted(
    entries: Seq<(Seq<char>, Seq<char>)>,
    username: Seq<char>,
    password: Seq<char>,
) -> bool {
    match hash_for(entries, username) {
        Some(hashed_password) => password_verified(hashed_password, password),
        None => false,
    }
}

impl Passwords {
    /// The hash that counts for `username`, if the user has an entry.
    pub fn get(&self, username: &String) -> (found: Option<&String>)
        ensures
            match found {
                Some(hashed_password) => hash_for(self@, username@) == Some(hashed_password@),
                None => hash_for(self@, username@) is None,
            },
    {
        let mut k: usize = self.entries.len();
        assert(self@.take(k as int) =~= self@);
        while k > 0
            invariant
                k <= self.entries.len(),
                hash_for(self@, username@) == hash_for(self@.take(k as int), username@),
            decreases k,
        {
            let ghost upto = self@.take(k as int);
            assert(upto.last() == self.entries[k - 1]@);
            assert(upto.drop_last() =~= self@.take(k - 1));
            if self.entries[k - 1].username == *username {
                return Some(&self.entries[k - 1].hashed_password);
            }
            k -= 1;
        }
        None
    }

    /// Whether `username` is let in with `password`.
    pub fn admits(&self, username: &String, password: &String) -> (let_in: bool)
        ensures
            let_in == admitted(self@, username@, password@),
    {
        match self.get(username) {
            Some(hashed_password) => password_matches(hashed_password.as_str(), password.as_str()),
            None => false,
        }
    }
}

/// A line without the carriage return that may end it.
pub open spec fn chomped(line: Seq<char>) -> Seq<char> {
    if line.len() > 0 && line.last() == '\r' {
        line.drop_last()
    } else {
        line
    }
}

/// The entry that one line of the password file holds: the username
/// before its first colon and the hash after it. A line without a colon
/// holds none.
pub open spec fn line_entry(line: Seq<char>) -> Seq<(Seq<char>, Seq<char>)> {
    match split_at_first(line, ':') {
        Some(entry) => seq![entry],
        None => Seq::empty(),
    }
}

/// The entries of a password file, in the order of its lines.
///
/// Lines end with a line feed, or with a carriage return and a line
/// feed; neither belongs to the line. The last line need not end with
/// one.
pub open spec fn password_entries(content: Seq<char>) -> Seq<(Seq<char>, Seq<char>)>
    decreases content.len(),
{
    if content.len() == 0 {
        Seq::empty()
    } else {
        match split_at_first(content, '\n') {
            Some((line, rest)) => line_entry(chomped(line)) + password_entries(rest),
            None => line_entry(content),
        }
    }
}

/// The line without the carriage return that may end it.
fn chomp(line: &str) -> (rest: &str)
    ensures
        rest@ == chomped(line@),
{
    let n = line.unicode_len();
    if n > 0 && line.get_char(n - 1) == '\r' {
        assert(line@.subrange(0, n - 1) =~= line@.drop_last());
        line.substring_char(0, n - 1)
    } else {
        line
    }
}

/// Adds the entry of `line`, if it holds one.
fn push_entry(entries: &mut Vec<PasswordEntry>, line: &str)
    ensures
        entry_views(final(entries)@) == entry_views(old(entries)@) + line_entry(line@),
{
    let ghost before = entry_views(entries@);
    match split_once(line, ':') {
        Some((username, hashed_password)) => {
            entries.push(PasswordEntry { username, hashed_password });
            assert(entry_views(entries@) =~= before + line_entry(line@));
        },
        None => {
            assert(entry_views(entries@) =~= before + line_entry(line@));
        },
    }
}

/// Reads the password file from its content: one entry for each line
/// that holds a colon, see [`password_entries`].
pub fn read_password_file(content: &str) -> (passwords: Passwords)
    ensures
        passwords@ == password_entries(content@),
{
    let mut entries: Vec<PasswordEntry> = Vec::new();
    let mut rest: String = content.to_owned();
    assert(entry_views(entries@) + password_entries(rest@)
        =~= password_entries(content@));
    loop
        invariant_except_break
            password_entries(content@) == entry_views(entries@)
                + password_entries(rest@),
        ensures
            password_entries(content@) == entry_views(entries@),
        decreases rest@.len(),
    {
        let ghost done = entry_views(entries@);
        if rest.as_str().unicode_len() == 0 {
            assert(done + password_entries(rest@) =~= done);
            break;
        }
        match split_once(rest.as_str(), '\n') {
            Some((line, tail)) => {
                proof {
                    let i = choose|i: int| first_at(rest@, '\n', i);
                    assert(tail@.len() < rest@.len());
                }
                push_entry(&mut entries, chomp(line.as_str()));
                assert(done + (line_entry(chomped(line@)) + password_entries(tail@)) =~= (done
                    + line_entry(chomped(line@))) + password_entries(tail@));
                rest = tail;
            },
            None => {
                push_entry(&mut entries, rest.as_str());
                break;
            },
        }
    }
    Passwords { entries }
}

} // verus!
