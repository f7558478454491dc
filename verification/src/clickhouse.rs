//! The text of ClickHouse HTTP requests: the base URL with its encoded
//! credentials, and an insert request's URL and JSON-lines body.
use vstd::prelude::*;
use vstd::utf8::encode_utf8;
use crate::config::ClickHouseConfig;
use crate::text::{append_percent_encoded, has_prefix, percent_encode, prefix_at, push_char, texts};

verus! {

/// `s` with every leading copy of `p` removed (`str::trim_start_matches`).
pub open spec fn strip_all(s: Seq<char>, p: Seq<char>) -> Seq<char>
    decreases s.len(),
{
    if p.len() > 0 && has_prefix(s, p) {
        strip_all(s.subrange(p.len() as int, s.len() as int), p)
    } else {
        s
    }
}

/// Removes every leading copy of `p` from `s`.
pub fn trim_start_matches<'a>(s: &'a str, p: &str) -> (r: &'a str)
    ensures
        r@ == strip_all(s@, p@),
{
    let m = p.unicode_len();
    if m == 0 {
        return s;
    }
    let mut cur: &'a str = s;
    loop
        invariant
            m == p@.len(),
            m > 0,
            strip_all(cur@, p@) == strip_all(s@, p@),
        decreases cur@.len(),
    {
        if !prefix_at(cur, 0, p) {
            proof {
                assert(cur@.subrange(0, cur@.len() as int) =~= cur@);
            }
            return cur;
        }
        proof {
            assert(cur@.subrange(0, cur@.len() as int) =~= cur@);
        }
        let n = cur.unicode_len();
        cur = cur.substring_char(m, n);
    }
}

/// The base URL of the ClickHouse HTTP interface: the configured URL as it
/// stands when the user or the password is empty; otherwise the URL with
/// the percent-encoded user and password written in before the host, and
/// its scheme kept as `https` when it starts with `https://`, else `http`.
pub open spec fn base_url_text(c: ClickHouseConfig) -> Seq<char> {
    if c.user@.len() == 0 || c.password@.len() == 0 {
        c.url@
    } else {
        let scheme = if has_prefix(c.url@, "https://"@) {
            "https"@
        } else {
            "http"@
        };
        let host = strip_all(strip_all(c.url@, "http://"@), "https://"@);
        scheme + "://"@ + percent_encode(encode_utf8(c.user@)) + seq![':'] + percent_encode(
            encode_utf8(c.password@),
        ) + seq!['@'] + host
    }
}

/// The base URL of the ClickHouse HTTP interface for `config`.
pub fn base_url(config: &ClickHouseConfig) -> (u: String)
    ensures
        u@ == base_url_text(*config),
{
    let url = config.url.as_str();
    if config.user.as_str().is_empty() || config.password.as_str().is_empty() {
        return config.url.clone();
    }
    let mut out = if prefix_at(url, 0, "https://") {
        String::from_str("https")
    } else {
        String::from_str("http")
    };
    proof {
        assert(url@.subrange(0, url@.len() as int) =~= url@);
    }
    let host = trim_start_matches(trim_start_matches(url, "http://"), "https://");
    out.append("://");
    append_percent_encoded(&mut out, config.user.as_str());
    push_char(&mut out, ':');
    append_percent_encoded(&mut out, config.password.as_str());
    push_char(&mut out, '@');
    out.append(host);
    out
}

/// An HTTP POST to ClickHouse: where to send it and what to send.
pub struct InsertRequest {
    pub url: String,
    pub body: String,
}

/// The rows that are not empty, in order.
pub open spec fn nonempty_rows(rows: Seq<Seq<char>>) -> Seq<Seq<char>> {
    rows.filter(|r: Seq<char>| r.len() > 0)
}

/// The rows joined with a newline between each two.
pub open spec fn join_lines(rows: Seq<Seq<char>>) -> Seq<char>
    decreases rows.len(),
{
    if rows.len() == 0 {
        Seq::empty()
    } else if rows.len() == 1 {
        rows[0]
    } else {
        join_lines(rows.drop_last()) + seq!['\n'] + rows.last()
    }
}

/// The insert statement for a table in JSON-lines format.
pub open spec fn insert_query_text(database: Seq<char>, table: Seq<char>) -> Seq<char> {
    "INSERT INTO "@ + database + seq!['.'] + table + " FORMAT JSONEachRow"@
}

/// The request that inserts JSON rows into `table`: none when no row is
/// left after dropping the empty ones; else a POST to the base URL with the
/// percent-encoded insert statement as its `query` parameter, whose body is
/// the rows, one per line.
pub fn insert_request(
    base_url: &str,
    database: &str,
    table: &str,
    json_rows: &Vec<String>,
) -> (r: Option<InsertRequest>)
    ensures
        nonempty_rows(texts(json_rows@)).len() == 0 <==> r is None,
        r matches Some(req) ==> {
            &&& req.body@ == join_lines(nonempty_rows(texts(json_rows@)))
            &&& req.url@ == base_url@ + "/?query="@ + percent_encode(
                encode_utf8(insert_query_text(database@, table@)),
            )
        },
{
    let ghost rows = texts(json_rows@);
    let mut body = String::new();
    let mut count: usize = 0;
    let n = json_rows.len();
    let mut i: usize = 0;
    while i < n
        invariant
            n == json_rows@.len(),
            rows == texts(json_rows@),
            i <= n,
            count == nonempty_rows(rows.take(i as int)).len(),
            body@ == join_lines(nonempty_rows(rows.take(i as int))),
        decreases n - i,
    {
        let row = json_rows[i].as_str();
        proof {
            assert(rows.take(i + 1).drop_last() =~= rows.take(i as int));
            assert(rows.take(i + 1).last() == row@);
            reveal(Seq::filter);
        }
        if !row.is_empty() {
            if count > 0 {
                push_char(&mut body, '\n');
            }
            body.append(row);
            count = count + 1;
            proof {
                let f = nonempty_rows(rows.take(i + 1));
                assert(f.drop_last() =~= nonempty_rows(rows.take(i as int)));
                assert(f.last() == row@);
            }
        }
        i = i + 1;
    }
    proof {
        assert(rows.take(n as int) =~= rows);
    }
    if count == 0 {
        return None;
    }
    let mut query = String::from_str("INSERT INTO ");
    query.append(database);
    push_char(&mut query, '.');
    query.append(table);
    query.append(" FORMAT JSONEachRow");
    let mut url = String::from_str(base_url);
    url.append("/?query=");
    append_percent_encoded(&mut url, query.as_str());
    proof {
        assert(query@ =~= insert_query_text(database@, table@));
    }
    Some(InsertRequest { url, body })
}

} // verus!
