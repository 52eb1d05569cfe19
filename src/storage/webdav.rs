use vstd::prelude::*;

use crate::config::WebdavStorageConfig;
use crate::storage::{BMCLAPIFile, RemoteFile, Storage, StorageState};
use crate::utils::{join_path, joined, push_char};

verus! {

/// What replacing the first match of the regular expression `pattern` in
/// `text` by `replacement` gives (`$n` and `${n}` stand for capture groups,
/// `$$` for a dollar sign).
pub uninterp spec fn regex_replaced(
    pattern: Seq<char>,
    text: Seq<char>,
    replacement: Seq<char>,
) -> Seq<char>;

/// The two expressions that match an `https` or an `http` scheme at the
/// start of a text.
pub open spec fn is_scheme_pattern(p: Seq<char>) -> bool {
    p == seq!['^', '(', 'h', 't', 't', 'p', 's', '?', ':', '/', '/', ')'] || p == seq![
        '^',
        '(',
        'h',
        't',
        't',
        'p',
        '?',
        ':',
        '/',
        '/',
        ')',
    ]
}

/// `p` is a prefix of `t`.
pub open spec fn has_prefix(t: Seq<char>, p: Seq<char>) -> bool {
    p.len() <= t.len() && t.subrange(0, p.len() as int) == p
}

/// `t`, whose prefix is `p`, with `x` put after that prefix.
pub open spec fn insert_after_prefix(t: Seq<char>, p: Seq<char>, x: Seq<char>) -> Seq<char> {
    p + x + t.subrange(p.len() as int, t.len() as int)
}

/// What replacing the first match of a scheme expression in `text` by the
/// matched scheme followed by `x` gives: `x` goes after the longest scheme the
/// expression matches at the start, and a text that starts with none stays
/// as it is.
pub open spec fn scheme_replaced(pattern: Seq<char>, text: Seq<char>, x: Seq<char>) -> Seq<char> {
    let https = seq!['h', 't', 't', 'p', 's', ':', '/', '/'];
    let http = seq!['h', 't', 't', 'p', ':', '/', '/'];
    let htt = seq!['h', 't', 't', ':', '/', '/'];
    if pattern == seq!['^', '(', 'h', 't', 't', 'p', 's', '?', ':', '/', '/', ')'] {
        if has_prefix(text, https) {
            insert_after_prefix(text, https, x)
        } else if has_prefix(text, http) {
            insert_after_prefix(text, http, x)
        } else {
            text
        }
    } else {
        if has_prefix(text, http) {
            insert_after_prefix(text, http, x)
        } else if has_prefix(text, htt) {
            insert_after_prefix(text, htt, x)
        } else {
            text
        }
    }
}

/// Relies on `regex::Regex::new` to compile `pattern` (`None` where it does
/// not; it fails only on bad syntax or an exceeded size limit, so the two
/// small, well-formed scheme expressions compile) and on
/// `regex::Regex::replace` to replace its first match: for a scheme
/// expression, anchored at the start with a greedy optional letter, and a
/// replacement `${1}` followed by text whose `$` signs are doubled, that is
/// the matched scheme followed by the text with its `$` signs single again.
#[verifier::external_body]
fn replace_first(pattern: &str, text: &str, replacement: &str) -> (r: Option<String>)
    ensures
        r matches Some(s) ==> s@ == regex_replaced(pattern@, text@, replacement@),
        is_scheme_pattern(pattern@) ==> r is Some,
        forall|x: Seq<char>|
            is_scheme_pattern(pattern@) && replacement@ == seq!['$', '{', '1', '}']
                + #[trigger] escape_dollars(x) ==> r->0@ == scheme_replaced(pattern@, text@, x),
{
    match regex::Regex::new(pattern) {
        Ok(re) => Some(re.replace(text, replacement).into_owned()),
        Err(_) => None,
    }
}

/// The endpoint is an `https` address.
pub open spec fn is_https(endpoint: Seq<char>) -> bool {
    endpoint.len() >= 5 && endpoint.subrange(0, 5) == seq!['h', 't', 't', 'p', 's']
}

/// The expression that matches the scheme at the start of the endpoint.
pub open spec fn scheme_pattern(endpoint: Seq<char>) -> Seq<char> {
    if is_https(endpoint) {
        seq!['^', '(', 'h', 't', 't', 'p', 's', '?', ':', '/', '/', ')']
    } else {
        seq!['^', '(', 'h', 't', 't', 'p', '?', ':', '/', '/', ')']
    }
}

/// The text with each `$` doubled, so that a replacement keeps it literally.
pub open spec fn escape_dollars(s: Seq<char>) -> Seq<char>
    decreases s.len(),
{
    if s.len() == 0 {
        s
    } else {
        let e = escape_dollars(s.drop_last());
        if s.last() == '$' {
            e + seq!['$', '$']
        } else {
            e.push(s.last())
        }
    }
}

/// The replacement that keeps the matched scheme and puts
/// `username:password@` after it.
pub open spec fn auth_replacement(username: Seq<char>, password: Seq<char>) -> Seq<char> {
    seq!['$', '{', '1', '}'] + escape_dollars(username) + seq![':'] + escape_dollars(password)
        + seq!['@']
}

/// `username:password@`, the credentials put in front of the host.
pub open spec fn credentials(username: Seq<char>, password: Seq<char>) -> Seq<char> {
    username + seq![':'] + password + seq!['@']
}

/// Doubling `$` signs works piece by piece.
pub proof fn lemma_escape_concat(a: Seq<char>, b: Seq<char>)
    ensures
        escape_dollars(a + b) == escape_dollars(a) + escape_dollars(b),
    decreases b.len(),
{
    if b.len() == 0 {
        assert(a + b =~= a);
        assert(escape_dollars(a) + escape_dollars(b) =~= escape_dollars(a));
    } else {
        lemma_escape_concat(a, b.drop_last());
        assert((a + b).drop_last() =~= a + b.drop_last());
        assert((a + b).last() == b.last());
        if b.last() == '$' {
            assert(escape_dollars(a) + escape_dollars(b) =~= escape_dollars(a) + escape_dollars(
                b.drop_last(),
            ) + seq!['$', '$']);
        } else {
            assert(escape_dollars(a) + escape_dollars(b) =~= (escape_dollars(a) + escape_dollars(
                b.drop_last(),
            )).push(b.last()));
        }
    }
}

proof fn lemma_auth_replacement(username: Seq<char>, password: Seq<char>)
    ensures
        auth_replacement(username, password) == seq!['$', '{', '1', '}'] + escape_dollars(
            credentials(username, password),
        ),
{
    let colon = seq![':'];
    let at = seq!['@'];
    assert(escape_dollars(colon) == colon) by {
        assert(colon.drop_last() =~= Seq::<char>::empty());
        assert(escape_dollars(Seq::<char>::empty()).push(':') =~= colon);
    }
    assert(escape_dollars(at) == at) by {
        assert(at.drop_last() =~= Seq::<char>::empty());
        assert(escape_dollars(Seq::<char>::empty()).push('@') =~= at);
    }
    lemma_escape_concat(username, colon);
    lemma_escape_concat(username + colon, password);
    lemma_escape_concat(username + colon + password, at);
    assert(auth_replacement(username, password) =~= seq!['$', '{', '1', '}'] + escape_dollars(
        credentials(username, password),
    ));
}

fn escape_dollars_exec(s: &str, out: &mut String)
    ensures
        final(out)@ == old(out)@ + escape_dollars(s@),
{
    let v = crate::utils::chars_of(s);
    let ghost start = out@;
    for i in 0..v.len()
        invariant
            v@ == s@,
            out@ == start + escape_dollars(v@.subrange(0, i as int)),
    {
        let ghost vi1 = v@.subrange(0, i + 1);
        proof {
            assert(vi1.drop_last() =~= v@.subrange(0, i as int));
            assert(vi1.last() == v@[i as int]);
        }
        if v[i] == '$' {
            push_char(out, '$');
            push_char(out, '$');
            proof {
                assert(out@ =~= start + escape_dollars(vi1));
            }
        } else {
            push_char(out, v[i]);
            proof {
                assert(out@ =~= start + escape_dollars(vi1));
            }
        }
    }
    proof {
        assert(v@.subrange(0, v@.len() as int) =~= v@);
    }
}

/// The address of `path` under `base` on an endpoint (which may already
/// carry credentials).
pub fn address_under(endpoint: &str, base: &str, path: &str) -> (r: String)
    ensures
        r@ == joined(joined(endpoint@, base@), path@),
{
    let root = join_path(endpoint, base);
    join_path(root.as_str(), path)
}

/// A backend on a WebDAV endpoint. Listings, uploads and deletions go under
/// the administrative base path joined with the download base path.
pub struct WebdavStorage {
    pub storage_config: WebdavStorageConfig,
    pub state: StorageState,
}

impl WebdavStorage {
    pub fn new(storage_config: WebdavStorageConfig) -> (r: WebdavStorage)
        ensures
            r.storage_config == storage_config,
            r.state.wf(),
            r.state.files@ == Map::<Seq<char>, (Seq<char>, nat)>::empty(),
            r.state.empty_files@.len() == 0,
    {
        WebdavStorage { storage_config, state: StorageState::new() }
    }

    pub open spec fn root(&self) -> Seq<char> {
        joined(self.storage_config.dav_basepath@, self.storage_config.download_basepath@)
    }

    /// The download base path under the administrative one.
    pub fn download_basepath_with_dav_basepath(&self) -> (r: String)
        ensures
            r@ == self.root(),
    {
        join_path(
            self.storage_config.dav_basepath.as_str(),
            self.storage_config.download_basepath.as_str(),
        )
    }

    /// The endpoint with `username:password@` put after its scheme, so that
    /// an anonymous fetch still authenticates.
    pub fn endpoint_with_credentials(&self) -> (r: String)
        ensures
            r@ == scheme_replaced(
                scheme_pattern(self.storage_config.endpoint@),
                self.storage_config.endpoint@,
                credentials(self.storage_config.username@, self.storage_config.password@),
            ),
            r@ == regex_replaced(
                scheme_pattern(self.storage_config.endpoint@),
                self.storage_config.endpoint@,
                auth_replacement(self.storage_config.username@, self.storage_config.password@),
            ),
    {
        let endpoint = self.storage_config.endpoint.as_str();
        proof {
            reveal_strlit("https");
            reveal_strlit("^(https?://)");
            reveal_strlit("^(http?://)");
        }
        let https = crate::utils::starts_with(endpoint, "https");
        let pattern = if https {
            String::from_str("^(https?://)")
        } else {
            String::from_str("^(http?://)")
        };
        proof {
            assert("https"@ =~= seq!['h', 't', 't', 'p', 's']);
            assert(pattern@ =~= scheme_pattern(self.storage_config.endpoint@));
        }
        proof {
            reveal_strlit("${1}");
            reveal_strlit(":");
            reveal_strlit("@");
        }
        let mut replacement = String::from_str("${1}");
        escape_dollars_exec(self.storage_config.username.as_str(), &mut replacement);
        replacement.append(":");
        escape_dollars_exec(self.storage_config.password.as_str(), &mut replacement);
        replacement.append("@");
        proof {
            assert(replacement@ =~= auth_replacement(
                self.storage_config.username@,
                self.storage_config.password@,
            ));
            lemma_auth_replacement(self.storage_config.username@, self.storage_config.password@);
            assert(replacement@ == seq!['$', '{', '1', '}'] + escape_dollars(
                credentials(self.storage_config.username@, self.storage_config.password@),
            ));
        }
        match replace_first(pattern.as_str(), endpoint, replacement.as_str()) {
            Some(s) => s,
            None => {
                proof {
                    assert(false);
                }
                String::new()
            },
        }
    }
}

impl Storage for WebdavStorage {
    open spec fn state_of(&self) -> StorageState {
        self.state
    }

    open spec fn base(&self) -> Seq<char> {
        self.root()
    }

    open spec fn absolute(&self, path: Seq<char>) -> Seq<char> {
        joined(
            joined(
                scheme_replaced(
                    scheme_pattern(self.storage_config.endpoint@),
                    self.storage_config.endpoint@,
                    credentials(self.storage_config.username@, self.storage_config.password@),
                ),
                self.root(),
            ),
            path,
        )
    }

    fn base_path(&self) -> (r: String) {
        self.download_basepath_with_dav_basepath()
    }

    fn object_path(&self, path: &str) -> (r: String) {
        let base = self.download_basepath_with_dav_basepath();
        join_path(base.as_str(), path)
    }

    fn get_absolute_path(&self, path: &str) -> (r: String) {
        let endpoint = self.endpoint_with_credentials();
        let base = self.download_basepath_with_dav_basepath();
        address_under(endpoint.as_str(), base.as_str(), path)
    }

    fn record_write(&mut self, content_len: usize, file: &BMCLAPIFile) -> (store: bool) {
        self.state.record_write(content_len, file)
    }

    fn confirm_write(&mut self, file: &BMCLAPIFile, size: usize) {
        self.state.confirm_write(file, size)
    }

    fn check_missing_files(&mut self, files: Vec<BMCLAPIFile>, listing: &Vec<RemoteFile>) -> (r:
        Vec<BMCLAPIFile>) {
        self.state.check_missing_files(files, listing)
    }

    fn cleanup_unused_files(&mut self, files: &Vec<BMCLAPIFile>, listing: &Vec<RemoteFile>) -> (r:
        Vec<String>) {
        self.state.cleanup_unused_files(files, listing)
    }
}

} // verus!
