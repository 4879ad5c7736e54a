use vstd::prelude::*;

use crate::error::Error;
use crate::text::{chars_to_string, str_to_chars};

verus! {

/// The SHA-256 digest of a string's characters. The digest has no short
/// description, so it is only named here; the wrapper below ties the name to
/// the outside call.
pub uninterp spec fn sha256_of(s: Seq<char>) -> Seq<u8>;

/// Relies on sha2's Sha256: the digest is 32 bytes and depends on the input
/// bytes alone.
#[verifier::external_body]
fn sha256_str(s: &str) -> (r: Vec<u8>)
    ensures
        r@ == sha256_of(s@),
        r@.len() == 32,
{
    <sha2::Sha256 as sha2::Digest>::digest(s.as_bytes()).to_vec()
}

/// The lowercase hexadecimal digit for a value below 16.
pub open spec fn spec_hex_digit(d: u8) -> char
    recommends
        d < 16,
{
    if d < 10 {
        (48 + d) as char
    } else {
        (87 + d) as char
    }
}

/// Lowercase hexadecimal encoding: two digits per byte, high nibble first.
pub open spec fn spec_hex(bytes: Seq<u8>) -> Seq<char>
    decreases bytes.len(),
{
    if bytes.len() == 0 {
        Seq::empty()
    } else {
        spec_hex(bytes.drop_last()) + seq![
            spec_hex_digit(bytes.last() / 16),
            spec_hex_digit(bytes.last() % 16),
        ]
    }
}

/// Relies on hex::encode: lowercase hexadecimal, exactly two digits per
/// input byte, high nibble first.
#[verifier::external_body]
fn hex_encode(bytes: &Vec<u8>) -> (r: String)
    ensures
        r@ == spec_hex(bytes@),
{
    hex::encode(bytes)
}

pub proof fn lemma_spec_hex_len(bytes: Seq<u8>)
    ensures
        spec_hex(bytes).len() == 2 * bytes.len(),
    decreases bytes.len(),
{
    if bytes.len() > 0 {
        lemma_spec_hex_len(bytes.drop_last());
    }
}

/// A lowercase hexadecimal digit character.
pub open spec fn spec_is_lower_hex(c: char) -> bool {
    ('0' <= c && c <= '9') || ('a' <= c && c <= 'f')
}

/// Every character of a hexadecimal encoding is a lowercase hex digit.
pub proof fn lemma_spec_hex_lower(bytes: Seq<u8>)
    ensures
        forall|j: int|
            0 <= j < spec_hex(bytes).len() ==> spec_is_lower_hex(#[trigger] spec_hex(bytes)[j]),
    decreases bytes.len(),
{
    if bytes.len() > 0 {
        lemma_spec_hex_lower(bytes.drop_last());
        let d = bytes.drop_last();
        let hi = spec_hex_digit(bytes.last() / 16);
        let lo = spec_hex_digit(bytes.last() % 16);
        assert(spec_is_lower_hex(hi));
        assert(spec_is_lower_hex(lo));
        assert forall|j: int| 0 <= j < spec_hex(bytes).len() implies spec_is_lower_hex(
            #[trigger] spec_hex(bytes)[j],
        ) by {
            if j < spec_hex(d).len() {
                assert(spec_hex(bytes)[j] == spec_hex(d)[j]);
            } else if j == spec_hex(d).len() {
                assert(spec_hex(bytes)[j] == hi);
            } else {
                assert(spec_hex(bytes)[j] == lo);
            }
        }
    }
}

/// The characters after the last '/': the repository basename of a
/// "host/user/repo" project name, or the whole sequence if it has no '/'.
pub open spec fn spec_after_last_slash(s: Seq<char>) -> Seq<char>
    decreases s.len(),
{
    if s.len() == 0 {
        s
    } else if s.last() == '/' {
        Seq::empty()
    } else {
        spec_after_last_slash(s.drop_last()).push(s.last())
    }
}

/// The branch slug: '/' replaced by '-', truncated to 20 characters.
pub open spec fn spec_branch_slug(b: Seq<char>) -> Seq<char> {
    Seq::new(b.len(), |i: int| if b[i] == '/' { '-' } else { b[i] }).take(
        if b.len() <= 20 { b.len() as int } else { 20 },
    )
}

/// The first two bytes of a digest (all of it, were it ever shorter).
pub open spec fn spec_prefix2(s: Seq<u8>) -> Seq<u8> {
    if s.len() <= 2 {
        s
    } else {
        s.take(2)
    }
}

/// A branch name with every '/' replaced by '-': safe as a directory name.
pub open spec fn spec_branch_dashes(b: Seq<char>) -> Seq<char> {
    Seq::new(b.len(), |i: int| if b[i] == '/' { '-' } else { b[i] })
}

/// Replace every '/' in a branch name by '-' for use as a directory name.
pub fn branch_dir_name(branch: &str) -> (r: String)
    ensures
        r@ == spec_branch_dashes(branch@),
{
    let bv = str_to_chars(branch);
    let n = bv.len();
    let mut out: Vec<char> = Vec::new();
    let mut i: usize = 0;
    while i < n
        invariant
            i <= n,
            n == bv@.len(),
            bv@ == branch@,
            out@ == spec_branch_dashes(branch@).take(i as int),
        decreases n - i,
    {
        if bv[i] == '/' {
            out.push('-');
        } else {
            out.push(bv[i]);
        }
        i = i + 1;
        proof {
            assert(out@ =~= spec_branch_dashes(branch@).take(i as int));
        }
    }
    proof {
        assert(spec_branch_dashes(branch@).take(n as int) =~= spec_branch_dashes(branch@));
    }
    chars_to_string(&out)
}

/// The session name derived from a project name and a branch:
/// `{repo-basename}_{branch-slug}_{4 hex chars of a SHA-256 prefix}`.
pub open spec fn spec_session_name(pn: Seq<char>, b: Seq<char>) -> Seq<char> {
    spec_after_last_slash(pn) + seq!['_'] + spec_branch_slug(b) + seq!['_'] + spec_hex(
        spec_prefix2(sha256_of(pn + seq![':'] + b)),
    )
}

/// The characters after the last '/' in a vector.
pub fn after_last_slash(v: &Vec<char>) -> (r: Vec<char>)
    ensures
        r@ == spec_after_last_slash(v@),
{
    let mut r: Vec<char> = Vec::new();
    let mut i: usize = 0;
    while i < v.len()
        invariant
            i <= v@.len(),
            r@ == spec_after_last_slash(v@.take(i as int)),
        decreases v@.len() - i,
    {
        if v[i] == '/' {
            r = Vec::new();
        } else {
            r.push(v[i]);
        }
        i = i + 1;
        proof {
            let t = v@.take(i as int);
            assert(t.drop_last() =~= v@.take(i as int - 1));
            assert(t.last() == v@[i as int - 1]);
        }
    }
    proof {
        assert(v@.take(v@.len() as int) =~= v@);
    }
    r
}

/// The repository basename of a project name: everything after the last '/'.
pub fn extract_repo_name(project_name: &str) -> (r: String)
    ensures
        r@ == spec_after_last_slash(project_name@),
{
    let v = str_to_chars(project_name);
    let repo = after_last_slash(&v);
    chars_to_string(&repo)
}

/// Generate the session name for a project and branch:
/// repository basename, then the branch slug (at most 20 characters, '/'
/// replaced by '-'), then exactly four lowercase hex characters of the
/// SHA-256 digest of `{project_name}:{branch}`, joined by underscores.
pub fn generate_session_name(project_name: &str, branch: &str) -> (r: String)
    ensures
        r@ == spec_session_name(project_name@, branch@),
        r@.len() == spec_after_last_slash(project_name@).len() + spec_branch_slug(
            branch@,
        ).len() + 6,
        forall|j: int| r@.len() - 4 <= j < r@.len() ==> spec_is_lower_hex(#[trigger] r@[j]),
{
    let pn = str_to_chars(project_name);
    let bn = str_to_chars(branch);

    let mut out = after_last_slash(&pn);
    out.push('_');

    // Branch slug: '/' becomes '-', at most 20 characters.
    let cap: usize = if bn.len() <= 20 {
        bn.len()
    } else {
        20
    };
    let ghost mapped = Seq::new(bn@.len(), |i: int| if bn@[i] == '/' { '-' } else { bn@[i] });
    let ghost out0 = out@;
    let mut i: usize = 0;
    while i < cap
        invariant
            i <= cap,
            cap <= bn@.len(),
            mapped == Seq::new(bn@.len(), |k: int| if bn@[k] == '/' { '-' } else { bn@[k] }),
            out@ == out0 + mapped.take(i as int),
        decreases cap - i,
    {
        if bn[i] == '/' {
            out.push('-');
        } else {
            out.push(bn[i]);
        }
        i = i + 1;
        proof {
            assert(mapped.take(i as int) =~= mapped.take(i as int - 1).push(mapped[i as int - 1]));
        }
    }
    proof {
        assert(out@ =~= spec_after_last_slash(pn@) + seq!['_'] + spec_branch_slug(bn@));
    }
    out.push('_');

    // Hash input: "{project_name}:{branch}".
    let mut hin: Vec<char> = Vec::new();
    let mut j: usize = 0;
    while j < pn.len()
        invariant
            j <= pn@.len(),
            hin@ == pn@.take(j as int),
        decreases pn@.len() - j,
    {
        hin.push(pn[j]);
        j = j + 1;
        proof {
            assert(hin@ =~= pn@.take(j as int));
        }
    }
    proof {
        assert(hin@ =~= pn@);
    }
    hin.push(':');
    let mut k: usize = 0;
    while k < bn.len()
        invariant
            k <= bn@.len(),
            hin@ == pn@ + seq![':'] + bn@.take(k as int),
        decreases bn@.len() - k,
    {
        hin.push(bn[k]);
        k = k + 1;
        proof {
            assert(hin@ =~= pn@ + seq![':'] + bn@.take(k as int));
        }
    }
    proof {
        assert(hin@ =~= pn@ + seq![':'] + bn@);
    }

    let hash_input = chars_to_string(&hin);
    let digest = sha256_str(hash_input.as_str());
    let mut prefix: Vec<u8> = Vec::new();
    prefix.push(digest[0]);
    prefix.push(digest[1]);
    proof {
        assert(prefix@ =~= spec_prefix2(digest@));
    }
    let suffix = hex_encode(&prefix);

    let sv = str_to_chars(suffix.as_str());
    let mut m: usize = 0;
    let ghost out1 = out@;
    while m < sv.len()
        invariant
            m <= sv@.len(),
            out@ == out1 + sv@.take(m as int),
        decreases sv@.len() - m,
    {
        out.push(sv[m]);
        m = m + 1;
        proof {
            assert(out@ =~= out1 + sv@.take(m as int));
        }
    }
    proof {
        assert(out@ =~= spec_session_name(project_name@, branch@));
        // The suffix is exactly four lowercase hex characters: the digest
        // has 32 bytes, so its two-byte prefix encodes to four digits.
        let h = spec_hex(spec_prefix2(sha256_of(project_name@ + seq![':'] + branch@)));
        lemma_spec_hex_len(spec_prefix2(sha256_of(project_name@ + seq![':'] + branch@)));
        lemma_spec_hex_lower(spec_prefix2(sha256_of(project_name@ + seq![':'] + branch@)));
        assert(spec_prefix2(digest@).len() == 2);
        assert(h.len() == 4);
        assert forall|j: int| out@.len() - 4 <= j < out@.len() implies spec_is_lower_hex(
            #[trigger] out@[j],
        ) by {
            assert(out@[j] == h[j - (out@.len() - 4)]);
        }
    }
    chars_to_string(&out)
}

/// The URL with every trailing ".git" removed.
pub open spec fn spec_strip_git(u: Seq<char>) -> Seq<char>
    decreases u.len(),
{
    if u.len() >= 4 && u.subrange(u.len() - 4, u.len() as int) == seq!['.', 'g', 'i', 't'] {
        spec_strip_git(u.take(u.len() - 4))
    } else {
        u
    }
}

/// How many '/' characters a sequence holds.
pub open spec fn count_slash(s: Seq<char>) -> nat
    decreases s.len(),
{
    if s.len() == 0 {
        0
    } else {
        (if s[0] == '/' {
            1nat
        } else {
            0
        }) + count_slash(s.skip(1))
    }
}

pub proof fn lemma_count_slash_split(s: Seq<char>, j: int)
    requires
        0 <= j <= s.len(),
    ensures
        count_slash(s) == count_slash(s.take(j)) + count_slash(s.skip(j)),
    decreases j,
{
    if j == 0 {
        assert(s.take(0) =~= Seq::empty());
        assert(s.skip(0) =~= s);
    } else {
        assert(s.take(j)[0] == s[0]);
        assert(s.take(j).skip(1) =~= s.skip(1).take(j - 1));
        assert(s.skip(j) =~= s.skip(1).skip(j - 1));
        assert(s.skip(1) =~= s.skip(1));
        lemma_count_slash_split(s.skip(1), j - 1);
    }
}

/// A valid place to cut the stripped URL so that exactly the last three
/// '/'-separated segments remain.
pub open spec fn valid_name_cut(s: Seq<char>, cut: int) -> bool {
    &&& 0 <= cut <= s.len()
    &&& count_slash(s.skip(cut)) == 2
    &&& (cut == 0 || s[cut - 1] == '/')
}

/// Remove every trailing ".git" from the characters of a URL.
fn strip_git_suffix(v: &mut Vec<char>)
    ensures
        final(v)@ == spec_strip_git(old(v)@),
{
    let ghost v0 = v@;
    while v.len() >= 4 && v[v.len() - 4] == '.' && v[v.len() - 3] == 'g' && v[v.len() - 2] == 'i'
        && v[v.len() - 1] == 't'
        invariant
            spec_strip_git(v@) == spec_strip_git(v0),
        decreases v@.len(),
    {
        proof {
            assert(v@.subrange(v@.len() - 4, v@.len() as int) =~= seq!['.', 'g', 'i', 't']);
        }
        let m = v.len() - 4;
        v.truncate(m);
    }
    proof {
        if v@.len() >= 4 {
            if v@.subrange(v@.len() - 4, v@.len() as int) == seq!['.', 'g', 'i', 't'] {
                assert(v@[v@.len() - 4] == '.');
                assert(false);
            }
        }
        assert(spec_strip_git(v@) == v@);
    }
}

/// Parse the canonical project name from a repository URL: strip trailing
/// ".git", then keep the last three '/'-separated segments (host, user,
/// repository). Fails with `InvalidUrl` when fewer than three segments are
/// present.
pub fn parse_project_name(url: &str) -> (r: Result<String, Error>)
    ensures
        r is Ok <==> count_slash(spec_strip_git(url@)) >= 2,
        r is Ok ==> exists|cut: int|
            #[trigger] valid_name_cut(spec_strip_git(url@), cut) && r->Ok_0@ == spec_strip_git(
                url@,
            ).skip(cut),
        r is Err ==> (r->Err_0 matches Error::InvalidUrl { url: u } && u@ == spec_strip_git(url@)),
{
    let mut v = str_to_chars(url);
    strip_git_suffix(&mut v);
    let n = v.len();

    let mut i: usize = n;
    let mut sc: usize = 0;
    while i > 0 && sc < 3
        invariant
            0 <= i <= n,
            n == v@.len(),
            sc == count_slash(v@.skip(i as int)),
            sc <= 3,
            sc == 3 ==> i < n && v@[i as int] == '/' && count_slash(v@.skip(i as int + 1)) == 2,
        decreases i,
    {
        let c = v[i - 1];
        proof {
            assert(v@.skip(i as int - 1).skip(1) =~= v@.skip(i as int));
            assert(v@.skip(i as int - 1)[0] == v@[i as int - 1]);
        }
        if c == '/' {
            sc = sc + 1;
        }
        i = i - 1;
    }

    if sc == 3 {
        // The character at `i` is the third slash from the end: the name is
        // everything after it.
        let cut = i + 1;
        let mut name: Vec<char> = Vec::new();
        let mut j: usize = cut;
        while j < n
            invariant
                cut <= j <= n,
                n == v@.len(),
                name@ == v@.subrange(cut as int, j as int),
            decreases n - j,
        {
            name.push(v[j]);
            j = j + 1;
            proof {
                assert(name@ =~= v@.subrange(cut as int, j as int));
            }
        }
        proof {
            assert(name@ =~= v@.skip(cut as int));
            assert(valid_name_cut(v@, cut as int));
            lemma_count_slash_split(v@, cut as int);
        }
        Ok(chars_to_string(&name))
    } else if sc == 2 {
        // Two slashes in all: the whole stripped URL is host/user/repo.
        proof {
            assert(v@.skip(0) =~= v@);
            assert(valid_name_cut(v@, 0));
        }
        Ok(chars_to_string(&v))
    } else {
        proof {
            assert(v@.skip(0) =~= v@);
        }
        Err(Error::InvalidUrl { url: chars_to_string(&v) })
    }
}

/// The session name is a function of the project name and branch alone:
/// equal inputs give the identical name, in every invocation.
pub proof fn lemma_session_name_deterministic(
    pn1: Seq<char>,
    b1: Seq<char>,
    pn2: Seq<char>,
    b2: Seq<char>,
)
    requires
        pn1 == pn2,
        b1 == b2,
    ensures
        spec_session_name(pn1, b1) == spec_session_name(pn2, b2),
{
}

/// The branch slug never exceeds its 20-character cap, and the hash suffix
/// is at most four characters, so the whole name is bounded by the
/// repository basename plus 26 characters.
pub proof fn lemma_session_name_bounded(pn: Seq<char>, b: Seq<char>)
    ensures
        spec_branch_slug(b).len() <= 20,
        spec_session_name(pn, b).len() <= spec_after_last_slash(pn).len() + 26,
{
    lemma_spec_hex_len(spec_prefix2(sha256_of(pn + seq![':'] + b)));
}

} // verus!
