//! Where a metadata blob lives, decided from its URI. The application
//! fetches it: S3 through the AWS SDK, HTTP(S) through an HTTP client,
//! anything else from the local filesystem.

use vstd::prelude::*;

verus! {

/// Errors returned when fetching a metadata blob.
pub enum ObjectStoreError {
    UnsupportedScheme(String),
    InvalidUri(String),
    Io(String),
    Http(String),
    S3(String),
    S3Disabled,
}

impl ObjectStoreError {
    /// The error's message, as it is displayed.
    pub fn message(&self) -> (s: String)
        ensures
            s@ == match self {
                ObjectStoreError::UnsupportedScheme(m) => "unsupported URI scheme: "@ + m@,
                ObjectStoreError::InvalidUri(m) => "invalid URI: "@ + m@,
                ObjectStoreError::Io(m) => "I/O error: "@ + m@,
                ObjectStoreError::Http(m) => "HTTP error: "@ + m@,
                ObjectStoreError::S3(m) => "S3 error: "@ + m@,
                ObjectStoreError::S3Disabled => "S3 support not compiled in; rebuild with --features s3"@,
            },
    {
        let (mut s, m) = match self {
            ObjectStoreError::UnsupportedScheme(m) => (String::from_str("unsupported URI scheme: "), m.as_str()),
            ObjectStoreError::InvalidUri(m) => (String::from_str("invalid URI: "), m.as_str()),
            ObjectStoreError::Io(m) => (String::from_str("I/O error: "), m.as_str()),
            ObjectStoreError::Http(m) => (String::from_str("HTTP error: "), m.as_str()),
            ObjectStoreError::S3(m) => (String::from_str("S3 error: "), m.as_str()),
            ObjectStoreError::S3Disabled => {
                return String::from_str("S3 support not compiled in; rebuild with --features s3");
            },
        };
        s.append(m);
        s
    }
}

/// Where an object is read from.
pub enum ObjectLocation {
    S3 { bucket: String, key: String },
    Http(String),
    Local(String),
}

pub open spec fn starts_with(s: Seq<char>, p: Seq<char>) -> bool {
    s.len() >= p.len() && s.take(p.len() as int) == p
}

/// Index of the first `/` in `s`, if any.
pub open spec fn first_slash(s: Seq<char>) -> Option<int>
    decreases s.len(),
{
    if s.len() == 0 {
        None
    } else {
        match first_slash(s.drop_last()) {
            Some(i) => Some(i),
            None => if s.last() == '/' { Some(s.len() - 1) } else { None },
        }
    }
}

/// The location a URI names: `s3://bucket/key` (an error without a `/`
/// after the bucket), `http://` and `https://` URLs, `file://` paths, and
/// anything else as a local path.
pub open spec fn location_ok(r: Result<ObjectLocation, ObjectStoreError>, uri: Seq<char>) -> bool {
    if starts_with(uri, "s3://"@) {
        let rest = uri.skip(5);
        match first_slash(rest) {
            Some(i) => r matches Ok(ObjectLocation::S3 { bucket, key }) && bucket@ == rest.take(i) && key@ == rest.skip(i + 1),
            None => r matches Err(ObjectStoreError::InvalidUri(m)) && m@ == uri,
        }
    } else if starts_with(uri, "http://"@) || starts_with(uri, "https://"@) {
        r matches Ok(ObjectLocation::Http(u)) && u@ == uri
    } else if starts_with(uri, "file://"@) {
        r matches Ok(ObjectLocation::Local(p)) && p@ == uri.skip(7)
    } else {
        r matches Ok(ObjectLocation::Local(p)) && p@ == uri
    }
}

fn has_prefix(s: &str, p: &str) -> (b: bool)
    ensures
        b == starts_with(s@, p@),
{
    let n = s.unicode_len();
    let m = p.unicode_len();
    if n < m {
        return false;
    }
    let head = s.substring_char(0, m).to_string();
    let pre = p.to_string();
    head == pre
}

/// Decides where the object named by `uri` is read from.
pub fn locate_object(uri: &str) -> (r: Result<ObjectLocation, ObjectStoreError>)
    ensures
        location_ok(r, uri@),
{
    let n = uri.unicode_len();
    proof {
        reveal_strlit("s3://");
        reveal_strlit("http://");
        reveal_strlit("https://");
        reveal_strlit("file://");
    }
    if has_prefix(uri, "s3://") {
        let rest = uri.substring_char(5, n);
        let rn = rest.unicode_len();
        proof {
            assert(rest@ =~= uri@.skip(5));
        }
        let mut i: usize = 0;
        while i < rn
            invariant
                rn == rest@.len(),
                rest@ == uri@.skip(5),
                starts_with(uri@, "s3://"@),
                i <= rn,
                first_slash(rest@.take(i as int)) is None,
            decreases rn - i,
        {
            proof {
                assert(rest@.take(i + 1).drop_last() =~= rest@.take(i as int));
            }
            if rest.get_char(i) == '/' {
                proof {
                    lemma_first_slash_prefix(rest@, i as int);
                }
                let bucket = rest.substring_char(0, i).to_string();
                let key = rest.substring_char(i + 1, rn).to_string();
                proof {
                    assert(bucket@ =~= rest@.take(i as int));
                    assert(key@ =~= rest@.skip(i + 1));
                }
                return Ok(ObjectLocation::S3 { bucket, key });
            }
            i = i + 1;
        }
        proof {
            assert(rest@.take(rn as int) =~= rest@);
        }
        return Err(ObjectStoreError::InvalidUri(uri.to_string()));
    }
    if has_prefix(uri, "http://") || has_prefix(uri, "https://") {
        return Ok(ObjectLocation::Http(uri.to_string()));
    }
    if has_prefix(uri, "file://") {
        let p = uri.substring_char(7, n).to_string();
        proof {
            assert(p@ =~= uri@.skip(7));
        }
        return Ok(ObjectLocation::Local(p));
    }
    Ok(ObjectLocation::Local(uri.to_string()))
}

proof fn lemma_first_slash_prefix(s: Seq<char>, i: int)
    requires
        0 <= i < s.len(),
        first_slash(s.take(i)) is None,
        s[i] == '/',
    ensures
        first_slash(s) == Some(i),
    decreases s.len(),
{
    if s.len() - 1 > i {
        assert(s.drop_last().take(i) =~= s.take(i));
        lemma_first_slash_prefix(s.drop_last(), i);
    } else {
        assert(s.drop_last() =~= s.take(i));
    }
}

} // verus!
