//! How each input line is laid out.
use vstd::prelude::*;

verus! {

/// The layout of an input line, fixed for a whole run.
#[derive(Clone, Copy, Debug, PartialEq, Eq, Structural)]
pub enum LineFormat {
    /// One value per line, weight 1.
    Single,
    /// A value, then its weight.
    KeyValue,
    /// A weight, then its value.
    ValueKey,
}

/// The format that each accepted name selects.
pub open spec fn format_named(s: Seq<char>) -> Option<LineFormat> {
    if s == "single"@ {
        Some(LineFormat::Single)
    } else if s == "kv"@ {
        Some(LineFormat::KeyValue)
    } else if s == "vk"@ {
        Some(LineFormat::ValueKey)
    } else {
        None
    }
}

/// Whether two strings hold the same characters.
pub fn same_text(a: &str, b: &str) -> (r: bool)
    ensures
        r == (a@ == b@),
{
    let n = a.unicode_len();
    if n != b.unicode_len() {
        return false;
    }
    let mut i: usize = 0;
    while i < n
        invariant
            n == a@.len() == b@.len(),
            i <= n,
            forall|k: int| 0 <= k < i ==> a@[k] == b@[k],
        decreases n - i,
    {
        if a.get_char(i) != b.get_char(i) {
            return false;
        }
        i = i + 1;
    }
    assert(a@ =~= b@);
    true
}

impl LineFormat {
    /// Reads a format from its name: `single`, `kv` or `vk`.
    pub fn from_name(s: &str) -> (r: Result<LineFormat, String>)
        ensures
            match format_named(s@) {
                Some(f) => r == Ok::<LineFormat, String>(f),
                None => r matches Err(e) && e@ == "unknown line format: '"@ + s@ + "'"@,
            },
    {
        if same_text(s, "single") {
            Ok(LineFormat::Single)
        } else if same_text(s, "kv") {
            Ok(LineFormat::KeyValue)
        } else if same_text(s, "vk") {
            Ok(LineFormat::ValueKey)
        } else {
            Err(String::from_str("unknown line format: '").concat(s).concat("'"))
        }
    }
}

impl std::str::FromStr for LineFormat {
    type Err = String;

    fn from_str(s: &str) -> Result<LineFormat, String> {
        LineFormat::from_name(s)
    }
}

} // verus!
