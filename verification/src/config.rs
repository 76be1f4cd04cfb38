use vstd::prelude::*;

use vstd::string::StrSliceExecFns;
use vstd::string::StringExecFns;

use crate::errors::ConfigError;
use crate::util::{
    eq_icase, eq_icase_exec, find_from, split_chars, split_str, trim_spec, trim_str, views_of,
};

verus! {

/// A lexicographic (code-point) ordering of character sequences.
pub open spec fn lex_leq(a: Seq<char>, b: Seq<char>) -> bool
    decreases a.len(),
{
    if a.len() == 0 {
        true
    } else if b.len() == 0 {
        false
    } else if (a[0] as u32) < (b[0] as u32) {
        true
    } else if (a[0] as u32) > (b[0] as u32) {
        false
    } else {
        lex_leq(a.drop_first(), b.drop_first())
    }
}

/// Every pair of a sequence of parts is in order.
pub open spec fn sorted_lex(parts: Seq<Seq<char>>) -> bool {
    forall|i: int, j: int| 0 <= i < j < parts.len() ==> lex_leq(#[trigger] parts[i], #[trigger] parts[j])
}

/// The parts joined with `;` between them.
pub open spec fn join_semi(parts: Seq<Seq<char>>) -> Seq<char>
    decreases parts.len(),
{
    if parts.len() == 0 {
        seq![]
    } else if parts.len() == 1 {
        parts[0]
    } else {
        parts[0] + seq![';'] + join_semi(parts.drop_first())
    }
}

/// `lex_leq` is total: two sequences compare in one direction or the other.
pub proof fn lemma_lex_total(a: Seq<char>, b: Seq<char>)
    ensures
        lex_leq(a, b) || lex_leq(b, a),
    decreases a.len(),
{
    if a.len() > 0 && b.len() > 0 && (a[0] as u32) == (b[0] as u32) {
        lemma_lex_total(a.drop_first(), b.drop_first());
    }
}

/// `lex_leq` is transitive.
pub proof fn lemma_lex_trans(a: Seq<char>, b: Seq<char>, c: Seq<char>)
    requires
        lex_leq(a, b),
        lex_leq(b, c),
    ensures
        lex_leq(a, c),
    decreases a.len(),
{
    if a.len() > 0 && b.len() > 0 && c.len() > 0 && (a[0] as u32) == (b[0] as u32) && (
    b[0] as u32) == (c[0] as u32) {
        lemma_lex_trans(a.drop_first(), b.drop_first(), c.drop_first());
    }
}

/// Appending one part extends a join by a separator and the part.
pub proof fn lemma_join_push(parts: Seq<Seq<char>>, p: Seq<char>)
    ensures
        parts.len() == 0 ==> join_semi(parts.push(p)) == p,
        parts.len() > 0 ==> join_semi(parts.push(p)) == join_semi(parts) + seq![';'] + p,
    decreases parts.len(),
{
    if parts.len() == 0 {
        assert(parts.push(p)[0] == p);
    } else if parts.len() == 1 {
        assert(parts.push(p).drop_first() =~= seq![p]);
        assert(parts.push(p)[0] == parts[0]);
        assert(seq![p].len() == 1 && seq![p][0] == p);
        assert(join_semi(seq![p]) == p);
        assert(join_semi(parts.push(p)) == parts.push(p)[0] + seq![';'] + join_semi(
            parts.push(p).drop_first(),
        ));
        assert(join_semi(parts) == parts[0]);
    } else {
        lemma_join_push(parts.drop_first(), p);
        assert(parts.push(p).drop_first() =~= parts.drop_first().push(p));
        assert(parts.push(p)[0] == parts[0]);
    }
}

/// Compare two string slices in code-point order.
pub fn str_lex_leq(a: &str, b: &str) -> (r: bool)
    ensures
        r == lex_leq(a@, b@),
{
    let na = a.unicode_len();
    let nb = b.unicode_len();
    let mut i: usize = 0;
    proof {
        assert(a@.skip(0) =~= a@);
        assert(b@.skip(0) =~= b@);
    }
    loop
        invariant
            na == a@.len(),
            nb == b@.len(),
            i <= na,
            i <= nb,
            lex_leq(a@, b@) == lex_leq(a@.skip(i as int), b@.skip(i as int)),
        decreases na - i,
    {
        proof {
            if i < na && i < nb {
                assert(a@.skip(i as int)[0] == a@[i as int]);
                assert(b@.skip(i as int)[0] == b@[i as int]);
                assert(a@.skip(i as int).drop_first() =~= a@.skip(i + 1));
                assert(b@.skip(i as int).drop_first() =~= b@.skip(i + 1));
            }
        }
        if i >= na {
            proof {
                assert(a@.skip(i as int).len() == 0);
            }
            return true;
        }
        if i >= nb {
            proof {
                assert(b@.skip(i as int).len() == 0);
                assert(a@.skip(i as int).len() > 0);
            }
            return false;
        }
        let ca = a.get_char(i);
        let cb = b.get_char(i);
        if (ca as u32) < (cb as u32) {
            return true;
        }
        if (ca as u32) > (cb as u32) {
            return false;
        }
        proof {
            assert(ca == cb) by {
                vstd::utf8::char_u32_cast(ca, ca as u32);
                vstd::utf8::char_u32_cast(cb, cb as u32);
            }
        }
        i = i + 1;
    }
}

/// Insert a part into a vector kept in `lex_leq` order, preserving order
/// and membership.
fn insert_sorted(v: &mut Vec<String>, s: String)
    requires
        sorted_lex(views_of(old(v)@)),
    ensures
        sorted_lex(views_of(final(v)@)),
        views_of(final(v)@).contains(s@),
        forall|x: Seq<char>|
            views_of(old(v)@).contains(x) ==> #[trigger] views_of(final(v)@).contains(x),
{
    let ghost before = views_of(v@);
    let mut k: usize = 0;
    while k < v.len() && str_lex_leq(v[k].as_str(), s.as_str())
        invariant
            k <= v@.len(),
            forall|j: int| 0 <= j < k ==> lex_leq(#[trigger] views_of(v@)[j], s@),
            views_of(v@) == before,
        decreases v@.len() - k,
    {
        k = k + 1;
    }
    proof {
        if k < v@.len() {
            lemma_lex_total(before[k as int], s@);
        }
    }
    v.insert(k, s);
    proof {
        let after = views_of(v@);
        assert(after =~= before.insert(k as int, s@));
        assert(after[k as int] == s@);
        assert forall|i: int, j: int| 0 <= i < j < after.len() implies lex_leq(
            #[trigger] after[i],
            #[trigger] after[j],
        ) by {
            if i < k && j == k {
            } else if i == k && j > k {
                assert(after[j] == before[j - 1]);
                if j > k + 1 {
                    lemma_lex_trans(s@, before[k as int], before[j - 1]);
                }
            } else if i < k && j > k {
                assert(after[i] == before[i] && after[j] == before[j - 1]);
            }
        }
        assert forall|x: Seq<char>| before.contains(x) implies after.contains(x) by {
            let w = choose|w: int| 0 <= w < before.len() && before[w] == x;
            if w < k {
                assert(after[w] == x);
            } else {
                assert(after[w + 1] == x);
            }
        }
    }
}

/// Two characters that are the same up to ASCII letter case.
pub open spec fn char_icase(a: char, b: char) -> bool {
    ||| a == b
    ||| (65 <= a as u32 <= 90 && (a as u32) + 32 == b as u32)
    ||| (65 <= b as u32 <= 90 && (b as u32) + 32 == a as u32)
}

/// Two texts that are the same up to ASCII letter case.
pub open spec fn icase_seq_eq(a: Seq<char>, b: Seq<char>) -> bool {
    a.len() == b.len() && (forall|i: int| 0 <= i < a.len() ==> char_icase(#[trigger] a[i], b[i]))
}

/// `char_icase` carries across a chain: ASCII case-folding has classes of
/// at most two characters.
pub proof fn lemma_char_icase_trans(a: char, b: char, c: char)
    requires
        char_icase(a, b),
        char_icase(b, c),
    ensures
        char_icase(a, c),
{
}

/// `icase_seq_eq` carries across a chain.
pub proof fn lemma_icase_seq_trans(a: Seq<char>, b: Seq<char>, c: Seq<char>)
    requires
        icase_seq_eq(a, b),
        icase_seq_eq(b, c),
    ensures
        icase_seq_eq(a, c),
{
    assert forall|i: int| 0 <= i < a.len() implies char_icase(#[trigger] a[i], c[i]) by {
        lemma_char_icase_trans(a[i], b[i], c[i]);
    }
}

/// The `key=value` reading of one `;`-part: the trimmed text before the
/// first `=` and the trimmed text after it, both of which must be
/// non-empty for the part to count.
pub open spec fn pair_of_part(p: Seq<char>) -> Option<(Seq<char>, Seq<char>)> {
    let t = trim_spec(p);
    let j = find_from(t, 0, '=');
    if j == t.len() {
        Option::None
    } else {
        let k = trim_spec(t.subrange(0, j));
        let v = trim_spec(t.subrange(j + 1, t.len() as int));
        if k.len() == 0 || v.len() == 0 {
            Option::None
        } else {
            Option::Some((k, v))
        }
    }
}

/// A key the builder replaces outright.
pub open spec fn is_encryption_key(k: Seq<char>) -> bool {
    icase_seq_eq(k, "encrypt"@) || icase_seq_eq(k, "trustservercertificate"@)
}

/// Some part of the output carries this key (up to ASCII case) before its
/// `=`.
pub open spec fn part_has_key(p: Seq<char>, k: Seq<char>) -> bool {
    p.len() > k.len() && p[k.len() as int] == '=' && icase_seq_eq(p.subrange(0, k.len() as int), k)
}

/// The key survives into some output part.
pub open spec fn has_key_part(parts: Seq<Seq<char>>, k: Seq<char>) -> bool {
    exists|p: Seq<char>| #[trigger] parts.contains(p) && part_has_key(p, k)
}

/// One input part is accounted for: either it carries no `key=value`
/// pair, or its key is one of the encryption keys the builder forces, or
/// an output part carries the key.
pub open spec fn part_covered(parts: Seq<Seq<char>>, raw_part: Seq<char>) -> bool {
    match pair_of_part(raw_part) {
        Option::Some(pair) => is_encryption_key(pair.0) || has_key_part(parts, pair.0),
        Option::None => true,
    }
}

/// What the rebuilt connection string promises: it is the `;`-join of a
/// sorted list of parts that carries the forced encryption parameters and
/// a part for every `key=value` pair of the input.
pub open spec fn connection_parts_ok(
    parts: Seq<Seq<char>>,
    input: Seq<char>,
    encryption_enabled: bool,
    out: Seq<char>,
) -> bool {
    &&& out == join_semi(parts)
    &&& sorted_lex(parts)
    &&& parts.contains(
        if encryption_enabled {
            "Encrypt=yes"@
        } else {
            "Encrypt=no"@
        },
    )
    &&& parts.contains(
        if encryption_enabled {
            "TrustServerCertificate=true"@
        } else {
            "TrustServerCertificate=yes"@
        },
    )
    &&& forall|q: int|
        0 <= q < split_chars(input, ';').len() ==> part_covered(
            parts,
            #[trigger] split_chars(input, ';')[q],
        )
}

/// Some recorded key matches this key up to ASCII case.
pub open spec fn key_recorded(keys: Seq<String>, k: Seq<char>) -> bool {
    exists|i: int| 0 <= i < keys.len() && icase_seq_eq(#[trigger] keys[i]@, k)
}

/// One raw input part is accounted for in the recorded keys.
pub open spec fn raw_part_recorded(keys: Seq<String>, raw: Seq<char>) -> bool {
    match pair_of_part(raw) {
        Option::Some(pair) => is_encryption_key(pair.0) || key_recorded(keys, pair.0),
        Option::None => true,
    }
}

/// Recording more keys never loses an accounted part.
proof fn lemma_recorded_preserved(before: Seq<String>, after: Seq<String>, raw: Seq<char>)
    requires
        raw_part_recorded(before, raw),
        after == before || exists|s: String| after == before.push(s),
    ensures
        raw_part_recorded(after, raw),
{
    match pair_of_part(raw) {
        Option::Some(pair) => {
            if !is_encryption_key(pair.0) {
                let i = choose|i: int|
                    0 <= i < before.len() && icase_seq_eq(#[trigger] before[i]@, pair.0);
                assert(after[i]@ == before[i]@);
            }
        },
        Option::None => {},
    }
}

/// A part that carries one key carries every ASCII-case-equal key.
proof fn lemma_part_has_key_icase(p: Seq<char>, k: Seq<char>, k2: Seq<char>)
    requires
        part_has_key(p, k),
        icase_seq_eq(k, k2),
    ensures
        part_has_key(p, k2),
{
    lemma_icase_seq_trans(p.subrange(0, k.len() as int), k, k2);
}

/// Adding parts never loses a carried key.
proof fn lemma_has_key_preserved(before: Seq<Seq<char>>, after: Seq<Seq<char>>, k: Seq<char>)
    requires
        has_key_part(before, k),
        forall|x: Seq<char>| before.contains(x) ==> #[trigger] after.contains(x),
    ensures
        has_key_part(after, k),
{
    let p = choose|p: Seq<char>| #[trigger] before.contains(p) && part_has_key(p, k);
    assert(after.contains(p));
}

/// A `;`-part whose trimmed text begins with `database=`, in any letter
/// case.
pub open spec fn is_database_part(p: Seq<char>) -> bool {
    let t = trim_spec(p);
    t.len() >= 9 && t[8] == '=' && (forall|i: int| 0 <= i < 8 ==> eq_icase(t[i], "database"@[i]))
}

/// What checking a connection string for its database name yields: the
/// first `;`-part whose trimmed text begins with `database=` (in any
/// letter case) decides — an empty name after the `=` is rejected — and a
/// string with no such part is rejected as missing.
pub open spec fn database_status_parts(parts: Seq<Seq<char>>) -> Result<(), ConfigError>
    decreases parts.len(),
{
    if parts.len() == 0 {
        Err(ConfigError::MissingDatabaseName)
    } else if is_database_part(parts[0]) {
        database_part_status(parts[0])
    } else {
        database_status_parts(parts.drop_first())
    }
}

/// Whether a matching part names a database: the text between the first
/// `=` and the next `=` (or the end), trimmed, must be non-empty.
pub open spec fn database_part_status(p: Seq<char>) -> Result<(), ConfigError> {
    let t = trim_spec(p);
    let j = find_from(t, 9, '=');
    if trim_spec(t.subrange(9, j)).len() == 0 {
        Err(ConfigError::EmptyDatabaseName)
    } else {
        Ok(())
    }
}

/// The verdict on a whole connection string.
pub open spec fn database_name_status(s: Seq<char>) -> Result<(), ConfigError> {
    database_status_parts(split_chars(s, ';'))
}

/// `find_from` is pinned down by a scan that found no earlier hit.
proof fn lemma_find_from_at(s: Seq<char>, from: int, j: int, c: char)
    requires
        0 <= from <= j <= s.len(),
        forall|k: int| from <= k < j ==> s[k] != c,
        j < s.len() ==> s[j] == c,
    ensures
        find_from(s, from, c) == if j < s.len() {
            j
        } else {
            s.len() as int
        },
    decreases j - from,
{
    if from < j {
        lemma_find_from_at(s, from + 1, j, c);
    }
}

/// Database-connection settings, with the pool limits the service uses.
#[derive(Debug, Clone)]
pub struct DatabaseConfig {
    pub connection_string: String,
    pub max_connections: u32,
    pub min_connections: u32,
    pub encryption_enabled: bool,
}

impl DatabaseConfig {
    /// Check that a connection string names a database: some `;`-part must
    /// read `Database=<name>` (in any letter case) with a non-empty name.
    pub fn validate_database_name(connection_string: &str) -> (r: Result<(), ConfigError>)
        ensures
            r == database_name_status(connection_string@),
    {
        let parts = split_str(connection_string, ';');
        let ghost views = parts@.map_values(|p: String| p@);
        let mut idx: usize = 0;
        proof {
            assert(views.skip(0) =~= views);
        }
        while idx < parts.len()
            invariant
                idx <= parts@.len(),
                views == parts@.map_values(|p: String| p@),
                views == split_chars(connection_string@, ';'),
                database_name_status(connection_string@) == database_status_parts(
                    views.skip(idx as int),
                ),
            decreases parts@.len() - idx,
        {
            proof {
                assert(views.skip(idx as int)[0] == views[idx as int]);
                assert(views.skip(idx as int).drop_first() =~= views.skip(idx + 1));
            }
            if Self::is_database_part_exec(parts[idx].as_str()) {
                return Self::database_part_status_exec(parts[idx].as_str());
            }
            idx = idx + 1;
        }
        proof {
            assert(views.skip(idx as int).len() == 0);
        }
        Err(ConfigError::MissingDatabaseName)
    }

    /// Whether one `;`-part is a `database=` parameter.
    fn is_database_part_exec(part: &str) -> (r: bool)
        ensures
            r == is_database_part(part@),
    {
        let t = trim_str(part);
        let n = t.unicode_len();
        if n < 9 {
            return false;
        }
        if t.as_str().get_char(8) != '=' {
            return false;
        }
        let keyword = "database";
        proof {
            reveal_strlit("database");
        }
        let mut i: usize = 0;
        while i < 8
            invariant
                t@ == trim_spec(part@),
                n == t@.len(),
                9 <= n,
                i <= 8,
                keyword@ == "database"@,
                keyword@.len() == 8,
                forall|j: int| 0 <= j < i ==> eq_icase(t@[j], keyword@[j]),
            decreases 8 - i,
        {
            if !eq_icase_exec(t.as_str().get_char(i), keyword.get_char(i)) {
                return false;
            }
            i = i + 1;
        }
        true
    }

    /// The verdict on one matching `database=` part.
    fn database_part_status_exec(part: &str) -> (r: Result<(), ConfigError>)
        requires
            is_database_part(part@),
        ensures
            r == database_part_status(part@),
    {
        let t = trim_str(part);
        let n = t.unicode_len();
        let mut j: usize = 9;
        while j < n && t.as_str().get_char(j) != '='
            invariant
                t@ == trim_spec(part@),
                n == t@.len(),
                9 <= j <= n,
                forall|k: int| 9 <= k < j ==> t@[k] != '=',
            decreases n - j,
        {
            j = j + 1;
        }
        proof {
            lemma_find_from_at(t@, 9, j as int, '=');
        }
        let name = trim_str(t.as_str().substring_char(9, j));
        if name.unicode_len() == 0 {
            Err(ConfigError::EmptyDatabaseName)
        } else {
            Ok(())
        }
    }

    /// Rebuild a connection string with the encryption parameters forced
    /// to match the flag: parameters are parsed as `key=value` pairs, a
    /// repeated key keeps its last value, keys are matched ignoring ASCII
    /// case (well-known ones are written back in their conventional
    /// casing), and the parts come out sorted, so equal configurations
    /// render identically. Every `key=value` pair of the input other than
    /// the encryption parameters keeps a part in the output.
    pub fn build_connection_string_with_encryption(
        base_connection_string: &str,
        encryption_enabled: bool,
    ) -> (r: String)
        ensures
            exists|parts: Seq<Seq<char>>|
                connection_parts_ok(parts, base_connection_string@, encryption_enabled, r@),
    {
        let raw_parts = split_str(base_connection_string, ';');
        let ghost views_raw = views_of(raw_parts@);
        let mut keys: Vec<String> = Vec::new();
        let mut values: Vec<String> = Vec::new();
        let mut pi: usize = 0;
        while pi < raw_parts.len()
            invariant
                views_raw == views_of(raw_parts@),
                views_raw == split_chars(base_connection_string@, ';'),
                pi <= raw_parts@.len(),
                keys@.len() == values@.len(),
                forall|q: int| 0 <= q < pi ==> raw_part_recorded(keys@, #[trigger] views_raw[q]),
            decreases raw_parts@.len() - pi,
        {
            let ghost keys_before = keys@;
            let part = trim_str(raw_parts[pi].as_str());
            let n = part.unicode_len();
            let mut j: usize = 0;
            while j < n && part.as_str().get_char(j) != '='
                invariant
                    n == part@.len(),
                    j <= n,
                    forall|m: int| 0 <= m < j ==> part@[m] != '=',
                decreases n - j,
            {
                j = j + 1;
            }
            proof {
                lemma_find_from_at(part@, 0, j as int, '=');
                assert(part@ == trim_spec(views_raw[pi as int]));
            }
            if j < n {
                let key = trim_str(part.as_str().substring_char(0, j));
                let value = trim_str(part.as_str().substring_char(j + 1, n));
                proof {
                    assert(key@ == trim_spec(part@.subrange(0, j as int)));
                    assert(value@ == trim_spec(part@.subrange(j + 1, n as int)));
                }
                if key.unicode_len() > 0 && value.unicode_len() > 0 {
                    if str_icase_eq(key.as_str(), "encrypt") || str_icase_eq(
                        key.as_str(),
                        "trustservercertificate",
                    ) {
                        proof {
                            assert(pair_of_part(views_raw[pi as int]) == Option::Some(
                                (key@, value@),
                            ));
                            assert(is_encryption_key(key@));
                        }
                    } else {
                        upsert_pair(&mut keys, &mut values, key, value);
                        proof {
                            assert forall|q: int|
                                0 <= q < pi implies raw_part_recorded(
                                keys@,
                                #[trigger] views_raw[q],
                            ) by {
                                lemma_recorded_preserved(keys_before, keys@, views_raw[q]);
                            }
                        }
                    }
                }
            }
            pi = pi + 1;
        }
        let ghost final_keys = keys@;
        let mut out: Vec<String> = Vec::new();
        let mut ki: usize = 0;
        while ki < keys.len()
            invariant
                keys@ == final_keys,
                keys@.len() == values@.len(),
                ki <= keys@.len(),
                sorted_lex(views_of(out@)),
                forall|kk: int|
                    0 <= kk < ki ==> has_key_part(views_of(out@), #[trigger] keys@[kk]@),
            decreases keys@.len() - ki,
        {
            let ghost out_before = views_of(out@);
            let display = display_key(keys[ki].as_str());
            let ghost display_view = display@;
            let mut piece = display;
            piece.append("=");
            piece.append(values[ki].as_str());
            proof {
                reveal_strlit("=");
                assert("="@.len() == 1 && "="@[0] == '=');
                assert(piece@ == display_view + "="@ + values@[ki as int]@);
                assert(piece@.subrange(0, display_view.len() as int) =~= display_view);
                assert(part_has_key(piece@, keys@[ki as int]@));
            }
            insert_sorted(&mut out, piece);
            proof {
                assert forall|kk: int|
                    0 <= kk < ki + 1 implies has_key_part(
                    views_of(out@),
                    #[trigger] keys@[kk]@,
                ) by {
                    if kk < ki {
                        lemma_has_key_preserved(out_before, views_of(out@), keys@[kk]@);
                    }
                }
            }
            ki = ki + 1;
        }
        let ghost out_mid = views_of(out@);
        let encrypt_part = if encryption_enabled {
            String::from_str("Encrypt=yes")
        } else {
            String::from_str("Encrypt=no")
        };
        insert_sorted(&mut out, encrypt_part);
        let ghost out_enc = views_of(out@);
        let trust_part = if encryption_enabled {
            String::from_str("TrustServerCertificate=true")
        } else {
            String::from_str("TrustServerCertificate=yes")
        };
        insert_sorted(&mut out, trust_part);
        let r = join_parts(&out);
        proof {
            let parts = views_of(out@);
            assert forall|kk: int|
                0 <= kk < final_keys.len() implies has_key_part(
                parts,
                #[trigger] final_keys[kk]@,
            ) by {
                lemma_has_key_preserved(out_mid, out_enc, final_keys[kk]@);
                lemma_has_key_preserved(out_enc, parts, final_keys[kk]@);
            }
            assert forall|q: int|
                0 <= q < split_chars(base_connection_string@, ';').len() implies part_covered(
                parts,
                #[trigger] split_chars(base_connection_string@, ';')[q],
            ) by {
                let raw = split_chars(base_connection_string@, ';')[q];
                assert(raw_part_recorded(final_keys, raw));
                match pair_of_part(raw) {
                    Option::Some(pair) => {
                        if !is_encryption_key(pair.0) {
                            let i = choose|i: int|
                                0 <= i < final_keys.len() && icase_seq_eq(
                                    #[trigger] final_keys[i]@,
                                    pair.0,
                                );
                            let p = choose|p: Seq<char>|
                                #[trigger] parts.contains(p) && part_has_key(p, final_keys[i]@);
                            lemma_part_has_key_icase(p, final_keys[i]@, pair.0);
                        }
                    },
                    Option::None => {},
                }
            }
            assert(connection_parts_ok(parts, base_connection_string@, encryption_enabled, r@));
        }
        r
    }
}

/// Whether two keys are the same parameter name, ignoring ASCII case.
fn str_icase_eq(a: &str, b: &str) -> (r: bool)
    ensures
        r == icase_seq_eq(a@, b@),
{
    let na = a.unicode_len();
    let nb = b.unicode_len();
    if na != nb {
        return false;
    }
    let mut i: usize = 0;
    while i < na
        invariant
            na == a@.len(),
            na == b@.len(),
            i <= na,
            forall|j: int| 0 <= j < i ==> char_icase(#[trigger] a@[j], b@[j]),
        decreases na - i,
    {
        let ca = a.get_char(i);
        let cb = b.get_char(i);
        let same = ca == cb || ((ca as u32) + 32 == (cb as u32) && 65 <= (ca as u32) && (ca as u32)
            <= 90) || ((cb as u32) + 32 == (ca as u32) && 65 <= (cb as u32) && (cb as u32) <= 90);
        if !same {
            return false;
        }
        i = i + 1;
    }
    true
}

/// Keep the last value seen for a key, matching keys ignoring ASCII case.
/// The keys already present stay as they are; a new key is appended.
fn upsert_pair(keys: &mut Vec<String>, values: &mut Vec<String>, key: String, value: String)
    requires
        old(keys)@.len() == old(values)@.len(),
    ensures
        final(keys)@.len() == final(values)@.len(),
        final(keys)@ == old(keys)@ || final(keys)@ == old(keys)@.push(key),
        exists|i: int|
            0 <= i < final(keys)@.len() && icase_seq_eq(#[trigger] final(keys)@[i]@, key@),
{
    let mut i: usize = 0;
    while i < keys.len()
        invariant
            i <= keys@.len(),
            keys@.len() == values@.len(),
            keys@ == old(keys)@,
        decreases keys@.len() - i,
    {
        if str_icase_eq(keys[i].as_str(), key.as_str()) {
            values.set(i, value);
            return ;
        }
        i = i + 1;
    }
    keys.push(key);
    values.push(value);
    proof {
        assert(keys@[keys@.len() - 1] == key);
        assert(icase_seq_eq(key@, key@));
    }
}

/// The conventional casing of the well-known connection-string keys; any
/// other key is written as it appeared. Either way the text is the same
/// key up to ASCII case.
fn display_key(key: &str) -> (r: String)
    ensures
        icase_seq_eq(r@, key@),
{
    if str_icase_eq(key, "server") {
        let r = String::from_str("Server");
        proof {
            reveal_strlit("server");
            reveal_strlit("Server");
            icase_display_chain(r@, "server"@, key@);
        }
        r
    } else if str_icase_eq(key, "database") {
        let r = String::from_str("Database");
        proof {
            reveal_strlit("database");
            reveal_strlit("Database");
            icase_display_chain(r@, "database"@, key@);
        }
        r
    } else if str_icase_eq(key, "user") {
        let r = String::from_str("User");
        proof {
            reveal_strlit("user");
            reveal_strlit("User");
            icase_display_chain(r@, "user"@, key@);
        }
        r
    } else if str_icase_eq(key, "password") {
        let r = String::from_str("Password");
        proof {
            reveal_strlit("password");
            reveal_strlit("Password");
            icase_display_chain(r@, "password"@, key@);
        }
        r
    } else {
        let r = key.to_owned();
        proof {
            assert(icase_seq_eq(r@, key@));
        }
        r
    }
}

/// Chain the conventional casing back to the key that was matched: the
/// display text folds to the same letters as the lower-case keyword, and
/// the keyword to the same letters as the key.
proof fn icase_display_chain(display: Seq<char>, keyword: Seq<char>, key: Seq<char>)
    requires
        icase_seq_eq(display, keyword),
        icase_seq_eq(key, keyword),
    ensures
        icase_seq_eq(display, key),
{
    assert(icase_seq_eq(keyword, key));
    lemma_icase_seq_trans(display, keyword, key);
}

/// Join the parts with `;` between them.
fn join_parts(parts: &Vec<String>) -> (r: String)
    ensures
        r@ == join_semi(views_of(parts@)),
{
    let ghost views = views_of(parts@);
    let mut out = String::new();
    let mut i: usize = 0;
    proof {
        assert(views.take(0) =~= Seq::<Seq<char>>::empty());
    }
    while i < parts.len()
        invariant
            views == views_of(parts@),
            i <= parts@.len(),
            out@ == join_semi(views.take(i as int)),
            i > 0 ==> views.take(i as int).len() > 0,
        decreases parts@.len() - i,
    {
        proof {
            reveal_strlit(";");
            lemma_join_push(views.take(i as int), views[i as int]);
            assert(views.take(i as int).push(views[i as int]) =~= views.take(i + 1));
            assert(";"@ =~= seq![';']);
        }
        if i > 0 {
            out.append(";");
        }
        out.append(parts[i].as_str());
        i = i + 1;
    }
    proof {
        assert(views.take(parts@.len() as int) =~= views);
    }
    out
}

/// The comma-separated origins of a configuration value, each trimmed.
pub fn parse_allowed_origins(origins: &str) -> (r: Vec<String>)
    ensures
        r@.len() == split_chars(origins@, ',').len(),
        forall|i: int|
            0 <= i < r@.len() ==> #[trigger] views_of(r@)[i] == trim_spec(
                split_chars(origins@, ',')[i],
            ),
{
    let parts = split_str(origins, ',');
    let mut out: Vec<String> = Vec::new();
    let mut i: usize = 0;
    while i < parts.len()
        invariant
            views_of(parts@) == split_chars(origins@, ','),
            i <= parts@.len(),
            out@.len() == i,
            forall|j: int|
                0 <= j < i ==> #[trigger] views_of(out@)[j] == trim_spec(
                    split_chars(origins@, ',')[j],
                ),
        decreases parts@.len() - i,
    {
        let ghost prev = out@;
        out.push(trim_str(parts[i].as_str()));
        proof {
            assert(views_of(out@) =~= views_of(prev).push(out@.last()@));
            assert(views_of(parts@)[i as int] == parts@[i as int]@);
        }
        i = i + 1;
    }
    out
}

} // verus!
