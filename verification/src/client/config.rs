//! How the client is set up.

use hex::ToHex;
use rand::Rng;
use sha2::Digest;
use vstd::prelude::*;

use crate::protocol::ClientInit;
use crate::text::{is_white, push_five_digits};

verus! {

/// The length of the word that the text begins with.
pub open spec fn word_len(s: Seq<char>) -> nat
    decreases s.len(),
{
    if s.len() == 0 || crate::text::white(s[0]) {
        0
    } else {
        1 + word_len(s.drop_first())
    }
}

/// The words of a text: what stands between white space.
pub open spec fn words(s: Seq<char>) -> Seq<Seq<char>>
    decreases s.len(),
{
    if s.len() == 0 {
        seq![]
    } else if crate::text::white(s[0]) {
        words(s.drop_first())
    } else {
        proof {
            lemma_word_len(s);
        }
        seq![s.take(word_len(s) as int)] + words(s.skip(word_len(s) as int))
    }
}

/// The texts of some strings.
pub open spec fn texts(strings: Seq<String>) -> Seq<Seq<char>> {
    strings.map_values(|s: String| s@)
}

/// A run of other characters is a word, wherever white space or the end follows.
proof fn lemma_word_ends(w: Seq<char>, rest: Seq<char>)
    requires
        forall|i: int| 0 <= i < w.len() ==> !crate::text::white(#[trigger] w[i]),
        rest.len() == 0 || crate::text::white(rest[0]),
    ensures
        word_len(w + rest) == w.len(),
        w.len() > 0 ==> words(w + rest) == seq![w] + words(rest),
    decreases w.len(),
{
    if w.len() == 0 {
        assert(w + rest =~= rest);
    } else {
        let tail = w.drop_first();
        lemma_word_ends(tail, rest);
        assert((w + rest).drop_first() =~= tail + rest);
        assert((w + rest)[0] == w[0]);
        assert((w + rest).take(w.len() as int) =~= w);
        assert((w + rest).skip(w.len() as int) =~= rest);
    }
}

/// Splits a text into its words.
fn split_words(s: &str) -> (found: Vec<String>)
    ensures
        texts(found@) == words(s@),
{
    let mut found: Vec<String> = Vec::new();
    let mut word = String::new();
    let len: usize = s.unicode_len();
    let mut i: usize = 0;
    proof {
        assert(texts(found@) =~= seq![]);
        assert(word@ + s@.skip(0) =~= s@);
        assert(texts(found@) + words(s@) =~= words(s@));
    }
    while i < len
        invariant
            i <= len == s@.len(),
            forall|k: int| 0 <= k < word@.len() ==> !crate::text::white(#[trigger] word@[k]),
            words(s@) == texts(found@) + words(word@ + s@.skip(i as int)),
        decreases len - i,
    {
        let c: char = s.get_char(i);
        let ghost rest = s@.skip(i as int);
        let ghost after = s@.skip(i + 1);
        let ghost old_word = word@;
        let ghost old_found = texts(found@);
        assert(rest.drop_first() =~= after);
        if is_white(c) {
            proof {
                lemma_word_ends(old_word, rest);
                assert(words(rest) == words(after));
            }
            if word.as_str().unicode_len() > 0 {
                found.push(word);
                word = String::new();
                proof {
                    assert(texts(found@) =~= old_found.push(old_word));
                    assert(old_found + (seq![old_word] + words(after)) =~= old_found.push(old_word)
                        + words(after));
                }
            } else {
                assert(old_word + rest =~= rest);
            }
            assert(word@ + after =~= after);
        } else {
            word.push(c);
            assert(word@ + after =~= old_word + rest);
        }
        i = i + 1;
    }
    proof {
        let rest = s@.skip(i as int);
        assert(rest.len() == 0);
        lemma_word_ends(word@, rest);
        assert(words(rest) =~= seq![]);
        assert(word@ + rest =~= word@);
        assert(seq![word@] + words(rest) =~= seq![word@]);
    }
    if word.as_str().unicode_len() > 0 {
        let ghost old_found = texts(found@);
        let ghost old_word = word@;
        found.push(word);
        assert(texts(found@) =~= old_found + seq![old_word]);
    } else {
        assert(texts(found@) + seq![] =~= texts(found@));
    }
    found
}

/// No word is empty, and none holds white space.
pub proof fn law_words_hold_no_white_space(s: Seq<char>, k: int)
    requires
        0 <= k < words(s).len(),
    ensures
        words(s)[k].len() > 0,
        forall|i: int| 0 <= i < words(s)[k].len() ==> !crate::text::white(#[trigger] words(s)[k][i]),
    decreases s.len(),
{
    if s.len() > 0 {
        if crate::text::white(s[0]) {
            law_words_hold_no_white_space(s.drop_first(), k);
        } else {
            let n = word_len(s);
            lemma_word_len(s);
            if k > 0 {
                assert(words(s)[k] == words(s.skip(n as int))[k - 1]);
                law_words_hold_no_white_space(s.skip(n as int), k - 1);
            } else {
                assert(words(s)[0] == s.take(n as int));
            }
        }
    }
}

/// The first word ends before the text does, and holds no white space.
pub proof fn lemma_word_len(s: Seq<char>)
    ensures
        word_len(s) <= s.len(),
        forall|i: int| 0 <= i < word_len(s) ==> !crate::text::white(#[trigger] s[i]),
    decreases s.len(),
{
    if s.len() > 0 && !crate::text::white(s[0]) {
        let tail = s.drop_first();
        lemma_word_len(tail);
        assert forall|i: int| 0 <= i < word_len(s) implies !crate::text::white(#[trigger] s[i]) by {
            if i > 0 {
                assert(s[i] == tail[i - 1]);
            }
        }
    }
}

/// The mpv command to execute, and its flags.
#[derive(Debug)]
pub struct MpvProcessInvocation {
    pub command: String,
    pub flags: Vec<String>,
}

impl MpvProcessInvocation {
    /// Reads a command line: the command is the first word, the flags are the others.
    pub fn from_str(s: &str) -> (r: Result<MpvProcessInvocation, String>)
        ensures
            match r {
                Ok(invocation) => words(s@).len() > 0 && invocation.command@ == words(s@)[0]
                    && texts(invocation.flags@) == words(s@).drop_first(),
                Err(message) => words(s@).len() == 0 && message@ == "Command cannot be empty."@,
            },
    {
        let mut found = split_words(s);
        if found.len() == 0 {
            return Err("Command cannot be empty.".to_string());
        }
        let ghost all = found@;
        let command = found.remove(0);
        proof {
            assert(texts(all)[0] == all[0]@);
            assert(texts(found@) =~= texts(all).drop_first());
        }
        Ok(MpvProcessInvocation { command, flags: found })
    }
}

/// `rand::Rng::gen_range`, called on the generator that `rand::thread_rng` hands out: a
/// number from `low` on and below `high`.  Which one is left to chance.
#[verifier::external_body]
fn random_number(low: u32, high: u32) -> (n: u32)
    requires
        low < high,
    ensures
        low <= n < high,
{
    rand::thread_rng().gen_range(low, high)
}

/// How many different numbers a name that is made up can end in.
pub const POSTFIXES: u32 = 100000;

/// Where the socket for the conversation with mpv lies.
pub struct MpvSocket(pub String);

/// The path of the socket with this number.
pub open spec fn numbered_socket(postfix: u32) -> Seq<char> {
    "/tmp/mpv_sync_socket."@ + crate::text::padded(postfix as int, 5)
}

impl MpvSocket {
    /// The socket with this number.
    pub fn numbered(postfix: u32) -> (socket: MpvSocket)
        requires
            postfix < POSTFIXES,
        ensures
            socket.0@ == numbered_socket(postfix),
    {
        let mut path = "/tmp/mpv_sync_socket.".to_string();
        push_five_digits(&mut path, postfix);
        MpvSocket(path)
    }

    /// The socket at this path.
    pub fn from_str(s: &str) -> (socket: MpvSocket)
        ensures
            socket.0@ == s@,
    {
        MpvSocket(s.to_string())
    }

    /// The path of the socket.
    pub fn to_string(&self) -> (path: String)
        ensures
            path@ == self.0@,
    {
        self.0.clone()
    }
}

impl Default for MpvSocket {
    /// A socket whose number is left to chance.
    fn default() -> (socket: MpvSocket)
        ensures
            exists|postfix: u32|
                postfix < POSTFIXES && socket.0@ == #[trigger] numbered_socket(postfix),
    {
        let postfix: u32 = random_number(0, POSTFIXES);
        MpvSocket::numbered(postfix)
    }
}

/// What the user is called.
#[derive(Debug)]
pub struct Username(pub String);

/// The name of nobody in particular.
pub open spec fn anonymous(postfix: u32) -> Seq<char> {
    "Anonymous-"@ + crate::text::padded(postfix as int, 5)
}

impl Username {
    /// The name of nobody in particular.
    pub fn numbered(postfix: u32) -> (name: Username)
        requires
            postfix < POSTFIXES,
        ensures
            name.0@ == anonymous(postfix),
    {
        let mut text = "Anonymous-".to_string();
        push_five_digits(&mut text, postfix);
        Username(text)
    }

    /// The name that the system knows the user by; where it knows none, one is made up.
    pub fn from_environment(user: Option<String>) -> (name: Username)
        ensures
            match user {
                Some(user) => name.0 == user,
                None => exists|postfix: u32|
                    postfix < POSTFIXES && name.0@ == #[trigger] anonymous(postfix),
            },
    {
        match user {
            Some(user) => Username(user),
            None => {
                let postfix: u32 = random_number(0, POSTFIXES);
                Username::numbered(postfix)
            },
        }
    }

    /// The name that the user has asked for, or else the one that the system knows.
    pub fn chosen(given: Option<String>, user: Option<String>) -> (name: Username)
        ensures
            match given {
                Some(given) => name.0 == given,
                None => user matches Some(user) ==> name.0 == user,
            },
            given is None && user is None ==> exists|postfix: u32|
                postfix < POSTFIXES && name.0@ == #[trigger] anonymous(postfix),
    {
        match given {
            Some(given) => Username(given),
            None => Username::from_environment(user),
        }
    }

    /// The name as it was given.
    pub fn from_str(s: &str) -> (name: Username)
        ensures
            name.0@ == s@,
    {
        Username(s.to_string())
    }

    /// The name.
    pub fn to_string(&self) -> (text: String)
        ensures
            text@ == self.0@,
    {
        self.0.clone()
    }
}

impl From<String> for Username {
    fn from(name: String) -> (r: Username) {
        Username(name)
    }
}

impl vstd::std_specs::convert::FromSpecImpl<String> for Username {
    open spec fn obeys_from_spec() -> bool {
        true
    }

    open spec fn from_spec(name: String) -> Username {
        Username(name)
    }
}

impl PartialEq for Username {
    fn eq(&self, other: &Username) -> (r: bool) {
        self.0 == other.0
    }
}

impl vstd::std_specs::cmp::PartialEqSpecImpl for Username {
    open spec fn obeys_eq_spec() -> bool {
        true
    }

    open spec fn eq_spec(&self, other: &Username) -> bool {
        self.0@ == other.0@
    }
}

impl Eq for Username {

}

/// Names that are made up differ if their numbers do; so do sockets.
pub proof fn law_made_up_names_differ(m: u32, n: u32)
    requires
        m < POSTFIXES,
        n < POSTFIXES,
        m != n,
    ensures
        anonymous(m) != anonymous(n),
        numbered_socket(m) != numbered_socket(n),
{
    let a = crate::text::padded(m as int, 5);
    let b = crate::text::padded(n as int, 5);
    assert(vstd::arithmetic::power::pow(10, 5) == 100000) by {
        reveal_with_fuel(vstd::arithmetic::power::pow, 6);
    }
    if a == b {
        crate::text::lemma_padded_distinct(m as int, n as int, 5);
    }
    crate::text::lemma_padded_len(m as int, 5);
    crate::text::lemma_padded_len(n as int, 5);
    let name = "Anonymous-"@;
    let path = "/tmp/mpv_sync_socket."@;
    assert((name + a).skip(name.len() as int) =~= a);
    assert((name + b).skip(name.len() as int) =~= b);
    assert((path + a).skip(path.len() as int) =~= a);
    assert((path + b).skip(path.len() as int) =~= b);
}

/// An argument that mpv is started with.
#[derive(Debug, PartialEq, Eq)]
pub enum MpvArgument {
    Text(String),
    /// A path, in the bytes of the system.
    Path(Vec<u8>),
}

/// An argument, as a value.
pub enum MpvArgumentView {
    Text(Seq<char>),
    Path(Seq<u8>),
}

impl View for MpvArgument {
    type V = MpvArgumentView;

    open spec fn view(&self) -> MpvArgumentView {
        match self {
            MpvArgument::Text(text) => MpvArgumentView::Text(text@),
            MpvArgument::Path(path) => MpvArgumentView::Path(path@),
        }
    }
}

/// Some arguments, as values.
pub open spec fn values(arguments: Seq<MpvArgument>) -> Seq<MpvArgumentView> {
    arguments.map_values(|argument: MpvArgument| argument@)
}

/// What the client is told when it is started.
pub struct Config {
    /// The address of the synchronization server.
    pub network_url: String,
    /// The path to the video to play, in the bytes of the system.
    pub video_path: Vec<u8>,
    /// Where the socket for the conversation with mpv lies.
    pub ipc_socket: MpvSocket,
    /// The mpv command to execute; it can name another mpv binary or add flags.
    pub mpv_command: MpvProcessInvocation,
    /// The name that represents the client.
    pub username: Username,
    /// No desktop notifications when changes occur.
    pub disable_desktop_notify: bool,
    /// The hash of the video, as text.
    pub video_hash: String,
}

impl Config {
    /// The arguments that mpv is started with: the flags of the command; one that keeps it
    /// open at the end of the video; one that says where the socket lies; and the video.
    pub open spec fn arguments(self) -> Seq<MpvArgumentView> {
        texts(self.mpv_command.flags@).map_values(|flag: Seq<char>| MpvArgumentView::Text(flag))
            + seq![
            MpvArgumentView::Text("--keep-open=always"@),
            MpvArgumentView::Text("--input-ipc-server="@ + self.ipc_socket.0@),
            MpvArgumentView::Path(self.video_path@),
        ]
    }

    /// The arguments that mpv is started with.
    pub fn mpv_arguments(&self) -> (arguments: Vec<MpvArgument>)
        ensures
            values(arguments@) == self.arguments(),
    {
        let flags = &self.mpv_command.flags;
        let ghost given = texts(flags@).map_values(
            |flag: Seq<char>| MpvArgumentView::Text(flag),
        );
        let mut arguments: Vec<MpvArgument> = Vec::new();
        let mut i: usize = 0;
        while i < flags.len()
            invariant
                i <= flags@.len(),
                given == texts(flags@).map_values(|flag: Seq<char>| MpvArgumentView::Text(flag)),
                values(arguments@) == given.take(i as int),
            decreases flags@.len() - i,
        {
            let ghost before = arguments@;
            arguments.push(MpvArgument::Text(flags[i].clone()));
            proof {
                assert(values(arguments@) =~= values(before).push(given[i as int]));
                assert(values(arguments@) =~= given.take(i + 1));
            }
            i = i + 1;
        }
        assert(given.take(i as int) =~= given);
        let ghost before = arguments@;
        let ipc_flag = "--input-ipc-server=".to_string().concat(self.ipc_socket.0.as_str());
        let path = self.video_path.clone();
        assert(path@ =~= self.video_path@);
        arguments.push(MpvArgument::Text("--keep-open=always".to_string()));
        arguments.push(MpvArgument::Text(ipc_flag));
        arguments.push(MpvArgument::Path(path));
        assert(values(arguments@) =~= values(before) + seq![
            MpvArgumentView::Text("--keep-open=always"@),
            MpvArgumentView::Text("--input-ipc-server="@ + self.ipc_socket.0@),
            MpvArgumentView::Path(self.video_path@),
        ]);
        arguments
    }

    /// How the client introduces itself to the server.
    pub fn client_init(&self) -> (init: ClientInit)
        ensures
            init.video_hash@ == self.video_hash@,
            init.name@ == self.username.0@,
    {
        ClientInit { video_hash: self.video_hash.clone(), name: self.username.0.clone() }
    }
}

/// The SHA-256 digest of some data.
pub uninterp spec fn sha256(data: Seq<u8>) -> Seq<u8>;

/// `sha2::Sha256`, given all the data by one `update` and then asked to `finalize`: the
/// digest depends on the data alone, and has 32 bytes.
#[verifier::external_body]
fn digest(data: &[u8]) -> (bytes: Vec<u8>)
    ensures
        bytes@ == sha256(data@),
        bytes@.len() == 32,
{
    let mut hasher = sha2::Sha256::new();
    hasher.update(data);
    hasher.finalize().as_slice().to_vec()
}

/// The sixteen hexadecimal digits, in order.
pub open spec fn hex_digits() -> Seq<char> {
    seq!['0', '1', '2', '3', '4', '5', '6', '7', '8', '9', 'a', 'b', 'c', 'd', 'e', 'f']
}

/// Some bytes in hexadecimal digits, two for each byte, the higher one first.
pub open spec fn hex_text(bytes: Seq<u8>) -> Seq<char> {
    Seq::new(
        2 * bytes.len(),
        |i: int|
            hex_digits()[if i % 2 == 0 {
                bytes[i / 2] as int / 16
            } else {
                bytes[i / 2] as int % 16
            }],
    )
}

/// `hex::ToHex::encode_hex` for a slice of bytes, into a `String`: two lower-case digits
/// for each byte, the higher one first.
#[verifier::external_body]
fn encode_hex(bytes: &[u8]) -> (text: String)
    ensures
        text@ == hex_text(bytes@),
{
    bytes.encode_hex::<String>()
}

/// The hash as text, made of the digest of a video.
pub fn hash_text(digest: &[u8]) -> (text: String)
    ensures
        text@ == hex_text(digest@),
{
    encode_hex(digest)
}

/// The hash of a video with this data, as text: the SHA-256 digest in hexadecimal digits.
pub fn calculate_file_hash(data: &[u8]) -> (hash: String)
    ensures
        hash@ == hex_text(sha256(data@)),
        hash@.len() == 64,
{
    let digest = digest(data);
    hash_text(digest.as_slice())
}

/// The text of a hash tells digests apart, and is made of digits and of lower-case letters
/// up to f.
pub proof fn law_hash_text_tells_digests_apart(a: Seq<u8>, b: Seq<u8>)
    ensures
        forall|i: int|
            0 <= i < hex_text(a).len() ==> hex_digits().contains(#[trigger] hex_text(a)[i]),
        hex_text(a) == hex_text(b) ==> a == b,
{
    let s = hex_text(a);
    let t = hex_text(b);
    assert forall|i: int| 0 <= i < s.len() implies hex_digits().contains(#[trigger] s[i]) by {
        let d = if i % 2 == 0 {
            a[i / 2] as int / 16
        } else {
            a[i / 2] as int % 16
        };
        assert(hex_digits()[d] == s[i]);
    }
    if s == t {
        assert(s.len() == 2 * a.len() && t.len() == 2 * b.len());
        assert forall|k: int| 0 <= k < a.len() implies a[k] == b[k] by {
            assert(s[2 * k] == hex_digits()[a[k] as int / 16]);
            assert(t[2 * k] == hex_digits()[b[k] as int / 16]);
            assert(s[2 * k + 1] == hex_digits()[a[k] as int % 16]);
            assert(t[2 * k + 1] == hex_digits()[b[k] as int % 16]);
            lemma_hex_digits_differ(a[k] as int / 16, b[k] as int / 16);
            lemma_hex_digits_differ(a[k] as int % 16, b[k] as int % 16);
        }
        assert(a =~= b);
    }
}

/// No two hexadecimal digits are the same.
proof fn lemma_hex_digits_differ(i: int, j: int)
    requires
        0 <= i < 16,
        0 <= j < 16,
        hex_digits()[i] == hex_digits()[j],
    ensures
        i == j,
{
}

/// Texts without white space are one word, and white space between two texts parts their
/// words: the words of the whole are those of the one and then those of the other.
pub proof fn law_white_space_parts_words(a: Seq<char>, w: char, b: Seq<char>)
    requires
        crate::text::white(w),
    ensures
        words(a + seq![w] + b) == words(a) + words(b),
        words(Seq::<char>::empty()).len() == 0,
        a.len() > 0 && (forall|i: int| 0 <= i < a.len() ==> !crate::text::white(#[trigger] a[i]))
            ==> words(a) == seq![a],
    decreases a.len(),
{
    let s = a + seq![w] + b;
    if a.len() == 0 {
        assert(s.drop_first() =~= b);
        assert(words(a) + words(b) =~= words(b));
    } else if crate::text::white(a[0]) {
        law_white_space_parts_words(a.drop_first(), w, b);
        assert(s.drop_first() =~= a.drop_first() + seq![w] + b);
    } else {
        let n = word_len(a) as int;
        lemma_word_len(a);
        lemma_word_len_ends(a);
        let first = a.take(n);
        let tail = a.skip(n);
        lemma_word_ends(first, tail);
        assert(first + tail =~= a);
        let rest = tail + seq![w] + b;
        assert(first + rest =~= s);
        assert(rest[0] == if n < a.len() {
            a[n]
        } else {
            w
        });
        lemma_word_ends(first, rest);
        law_white_space_parts_words(tail, w, b);
        assert(seq![first] + (words(tail) + words(b)) =~= (seq![first] + words(tail)) + words(b));
        if forall|i: int| 0 <= i < a.len() ==> !crate::text::white(#[trigger] a[i]) {
            let end = Seq::<char>::empty();
            lemma_word_ends(a, end);
            assert(a + end =~= a);
            assert(words(end) =~= seq![]);
            assert(seq![a] + words(end) =~= seq![a]);
        }
    }
}

/// The first word ends at white space or at the end of the text.
proof fn lemma_word_len_ends(s: Seq<char>)
    ensures
        word_len(s) < s.len() ==> crate::text::white(s[word_len(s) as int]),
    decreases s.len(),
{
    if s.len() > 0 && !crate::text::white(s[0]) {
        lemma_word_len_ends(s.drop_first());
    }
}

/// A command line gives its first word as the command and all others, in turn, as the flags;
/// it is refused exactly if it has no word.
pub proof fn law_command_line_is_its_words(s: &str, r: Result<MpvProcessInvocation, String>)
    requires
        call_ensures(MpvProcessInvocation::from_str, (s,), r),
    ensures
        r is Err <==> words(s@).len() == 0,
        r matches Err(message) ==> message@ == "Command cannot be empty."@,
        r matches Ok(invocation) ==> seq![invocation.command@] + texts(invocation.flags@)
            == words(s@),
{
    if let Ok(invocation) = r {
        assert(seq![invocation.command@] + texts(invocation.flags@) =~= words(s@));
    }
}

/// A name or a socket that is made up ends in five digits that read as its number.
pub proof fn law_made_up_names_end_in_their_number(
    postfix: u32,
    socket: MpvSocket,
    name: Username,
)
    requires
        postfix < 100000,
        call_ensures(MpvSocket::numbered, (postfix,), socket),
        call_ensures(Username::numbered, (postfix,), name),
    ensures
        ({
            let path = "/tmp/mpv_sync_socket."@;
            let digits = socket.0@.skip(path.len() as int);
            &&& socket.0@.take(path.len() as int) == path
            &&& digits.len() == 5 && crate::text::all_digits(digits)
            &&& crate::text::reading(digits) == postfix
        }),
        ({
            let nobody = "Anonymous-"@;
            let digits = name.0@.skip(nobody.len() as int);
            &&& name.0@.take(nobody.len() as int) == nobody
            &&& digits.len() == 5 && crate::text::all_digits(digits)
            &&& crate::text::reading(digits) == postfix
        }),
{
    assert(vstd::arithmetic::power::pow(10, 5) == 100000) by {
        reveal_with_fuel(vstd::arithmetic::power::pow, 6);
    }
    crate::text::law_padded_digits_read_as_the_number(postfix as int, 5);
    let digits = crate::text::padded(postfix as int, 5);
    let path = "/tmp/mpv_sync_socket."@;
    let nobody = "Anonymous-"@;
    assert(socket.0@.take(path.len() as int) =~= path);
    assert(socket.0@.skip(path.len() as int) =~= digits);
    assert(name.0@.take(nobody.len() as int) =~= nobody);
    assert(name.0@.skip(nobody.len() as int) =~= digits);
}

/// A name that is asked for goes before the one that the system knows, and that before one
/// that is made up.
pub proof fn law_name_that_is_asked_for_goes_first(
    given: Option<String>,
    user: Option<String>,
    name: Username,
)
    requires
        call_ensures(Username::chosen, (given, user), name),
    ensures
        given is Some ==> name.0 == given->0,
        given is None && user is Some ==> name.0 == user->0,
        given is None && user is None ==> name.0@.take("Anonymous-"@.len() as int)
            == "Anonymous-"@ && name.0@.len() == "Anonymous-"@.len() + 5,
{
    if given is None && user is None {
        let postfix = choose|postfix: u32|
            postfix < POSTFIXES && name.0@ == #[trigger] anonymous(postfix);
        crate::text::lemma_padded_len(postfix as int, 5);
        assert(name.0@.take("Anonymous-"@.len() as int) =~= "Anonymous-"@);
    }
}

/// Names and paths are kept as they are given.
pub proof fn law_names_are_kept_as_given(
    s: &str,
    socket: MpvSocket,
    path: String,
    name: Username,
    text: String,
    owned: String,
    same: Username,
    equal: bool,
)
    requires
        call_ensures(MpvSocket::from_str, (s,), socket),
        call_ensures(MpvSocket::to_string, (&socket,), path),
        call_ensures(Username::from_str, (s,), name),
        call_ensures(Username::to_string, (&name,), text),
        call_ensures(<Username as From<String>>::from, (owned,), same),
        call_ensures(<Username as PartialEq>::eq, (&name, &same), equal),
    ensures
        path@ == s@,
        text@ == s@,
        same.0 == owned,
        equal <==> s@ == owned@,
{
}

/// mpv is started with all flags of its command, in turn, then told to stay open and where
/// its socket lies, and last of all given the video.
pub proof fn law_video_comes_last(config: &Config, arguments: Vec<MpvArgument>)
    requires
        call_ensures(Config::mpv_arguments, (config,), arguments),
    ensures
        ({
            let n = config.mpv_command.flags@.len() as int;
            &&& arguments@.len() == n + 3
            &&& forall|i: int|
                0 <= i < n ==> (#[trigger] arguments@[i])@ == MpvArgumentView::Text(
                    config.mpv_command.flags@[i]@,
                )
            &&& arguments@[n]@ == MpvArgumentView::Text("--keep-open=always"@)
            &&& arguments@[n + 1]@ == MpvArgumentView::Text(
                "--input-ipc-server="@ + config.ipc_socket.0@,
            )
            &&& arguments@[n + 2]@ == MpvArgumentView::Path(config.video_path@)
        }),
{
    let n = config.mpv_command.flags@.len() as int;
    let all = values(arguments@);
    assert(all.len() == n + 3);
    assert forall|i: int| 0 <= i < n implies (#[trigger] arguments@[i])@ == MpvArgumentView::Text(
        config.mpv_command.flags@[i]@,
    ) by {
        assert(all[i] == arguments@[i]@);
    }
    assert(all[n] == arguments@[n]@);
    assert(all[n + 1] == arguments@[n + 1]@);
    assert(all[n + 2] == arguments@[n + 2]@);
}

/// A client introduces itself with its own name and the hash of its own video.
pub proof fn law_client_introduces_itself(
    config: &Config,
    init: ClientInit,
)
    requires
        call_ensures(Config::client_init, (config,), init),
    ensures
        init.name@ == config.username.0@,
        init.video_hash@ == config.video_hash@,
{
}

/// The value of a hexadecimal digit in lower case.
pub open spec fn hex_value(c: char) -> int {
    if '0' as int <= c as int <= '9' as int {
        c as int - '0' as int
    } else {
        c as int - 'a' as int + 10
    }
}

/// The text of a hash reads, two digits at a time, as the bytes of the digest; videos of the
/// same data have the same hash, of sixty-four digits.
pub proof fn law_hash_text_reads_as_the_digest(
    digest: &[u8],
    text: String,
    data: &[u8],
    hash: String,
    other: &[u8],
    other_hash: String,
)
    requires
        call_ensures(hash_text, (digest,), text),
        call_ensures(calculate_file_hash, (data,), hash),
        call_ensures(calculate_file_hash, (other,), other_hash),
    ensures
        text@.len() == 2 * digest@.len(),
        forall|k: int|
            0 <= k < digest@.len() ==> #[trigger] digest@[k] == 16 * hex_value(text@[2 * k])
                + hex_value(text@[2 * k + 1]),
        hash@.len() == 64,
        hash@ == hex_text(sha256(data@)),
        data@ == other@ ==> hash@ == other_hash@,
{
    assert forall|k: int| 0 <= k < digest@.len() implies #[trigger] digest@[k] == 16 * hex_value(
        text@[2 * k],
    ) + hex_value(text@[2 * k + 1]) by {
        let hi = digest@[k] as int / 16;
        let lo = digest@[k] as int % 16;
        assert(text@[2 * k] == hex_digits()[hi]);
        assert(text@[2 * k + 1] == hex_digits()[lo]);
        lemma_hex_value(hi);
        lemma_hex_value(lo);
    }
}

/// The digits stand for their places.
proof fn lemma_hex_value(d: int)
    requires
        0 <= d < 16,
    ensures
        hex_value(hex_digits()[d]) == d,
{
}

} // verus!
