//! The decisions of the `network` library around an HTTP request: which
//! header entries a request sends, and what a program sees of a response.
use vstd::prelude::*;

verus! {

/// A header entry of a request, as far as the request reads it.
pub enum HeaderItem {
    /// A list of values, each a text (`Some`) or something else (`None`).
    List(Vec<Option<String>>),
    /// A value that is not a list.
    Other,
}

/// The name and value that a header entry stands for: a list of exactly two
/// texts.
pub open spec fn header_pair(item: HeaderItem) -> Option<(Seq<char>, Seq<char>)> {
    match item {
        HeaderItem::List(v) => if v@.len() == 2 && v@[0] is Some && v@[1] is Some {
            Some((v@[0]->Some_0@, v@[1]->Some_0@))
        } else {
            None
        },
        HeaderItem::Other => None,
    }
}

/// The headers that the entries `items` give, in order; an entry that is not
/// a pair of texts is passed over.
pub open spec fn request_headers_spec(items: Seq<HeaderItem>) -> Seq<(Seq<char>, Seq<char>)>
    decreases items.len(),
{
    if items.len() == 0 {
        Seq::empty()
    } else {
        let rest = request_headers_spec(items.drop_last());
        match header_pair(items.last()) {
            Some(p) => rest.push(p),
            None => rest,
        }
    }
}

/// The views of a sequence of text pairs.
pub open spec fn pairs_view(v: Seq<(String, String)>) -> Seq<(Seq<char>, Seq<char>)> {
    v.map_values(|p: (String, String)| (p.0@, p.1@))
}

/// The headers that a request sends for the header entries `items`.
pub fn request_headers(items: &[HeaderItem]) -> (r: Vec<(String, String)>)
    ensures
        pairs_view(r@) == request_headers_spec(items@),
{
    let mut r: Vec<(String, String)> = Vec::new();
    let mut i: usize = 0;
    proof {
        assert(pairs_view(r@) =~= request_headers_spec(items@.subrange(0, 0)));
    }
    while i < items.len()
        invariant
            i <= items@.len(),
            pairs_view(r@) == request_headers_spec(items@.subrange(0, i as int)),
        decreases items@.len() - i,
    {
        let ghost pre = items@.subrange(0, i + 1);
        proof {
            assert(pre.drop_last() =~= items@.subrange(0, i as int));
            assert(pre.last() == items@[i as int]);
        }
        match &items[i] {
            HeaderItem::List(v) => {
                if v.len() == 2 {
                    match (&v[0], &v[1]) {
                        (Some(key), Some(value)) => {
                            let ghost before = r@;
                            r.push((key.clone(), value.clone()));
                            proof {
                                assert(pairs_view(r@) =~= pairs_view(before).push((key@, value@)));
                            }
                        },
                        _ => {},
                    }
                }
            },
            HeaderItem::Other => {},
        }
        i += 1;
    }
    proof {
        assert(items@.subrange(0, items@.len() as int) =~= items@);
    }
    r
}

/// What a program sees of a response: its status code, its headers and its
/// content.
pub struct ResponseData {
    pub status_code: i64,
    pub headers: Vec<(String, String)>,
    pub content: String,
}

/// The text shown for a header value that is not valid text.
pub open spec fn header_value_text(v: Option<String>) -> Seq<char> {
    match v {
        Some(s) => s@,
        None => "<err>"@,
    }
}

/// What a program sees of a response with status `status`, headers `headers`
/// (each value, if it is valid text) and content `content` (if it is valid
/// text): a response whose content is not text is an error.
pub fn response_from_parts(status: u16, headers: Vec<(String, Option<String>)>, content: Option<String>) -> (r: Result<ResponseData, String>)
    ensures
        content is None ==> (r matches Err(m) && m@ == "content is not a valid String"@),
        content matches Some(c) ==> (r matches Ok(d) && d.status_code == status as i64 && d.content@ == c@
            && d.headers@.len() == headers@.len() && forall|i: int|
            0 <= i < headers@.len() ==> (#[trigger] d.headers@[i]).0@ == headers@[i].0@ && d.headers@[i].1@
                == header_value_text(headers@[i].1)),
{
    let content = match content {
        Some(c) => c,
        None => {
            return Err("content is not a valid String".to_owned());
        },
    };
    let mut out: Vec<(String, String)> = Vec::new();
    let mut rest = headers;
    let ghost all = rest@;
    let mut k: usize = 0;
    let n = rest.len();
    proof {
        assert(all.subrange(0, all.len() as int) =~= all);
    }
    while rest.len() > 0
        invariant
            k <= n,
            n == all.len(),
            rest@.len() == n - k,
            rest@ == all.subrange(k as int, n as int),
            out@.len() == k,
            forall|i: int|
                0 <= i < k ==> (#[trigger] out@[i]).0@ == all[i].0@ && out@[i].1@ == header_value_text(all[i].1),
        decreases rest@.len(),
    {
        let (name, value) = rest.remove(0);
        let text = match value {
            Some(v) => v,
            None => "<err>".to_owned(),
        };
        proof {
            assert(all[k as int] == (name, value));
        }
        out.push((name, text));
        k += 1;
        proof {
            assert(rest@ =~= all.subrange(k as int, n as int));
        }
    }
    Ok(ResponseData { status_code: status as i64, headers: out, content })
}

} // verus!
