use crate::path::{components, path_components, path_rest, rest_after_first};
use crate::text::push_char;
use vstd::prelude::*;

verus! {

/// A file of a hive replica, as a `hive://` URI names it: the replica,
/// by its ticket (kept as text) or by its namespace identifier (32 bytes),
/// and the absolute path of the file in it.
#[derive(Debug, Clone)]
pub enum HivePath {
    ByTicket(String, String),
    ById(Vec<u8>, String),
}

/// The absolute file path that a `hive://` path names within its replica:
/// `/` followed by the rest of the path after its first component.
pub open spec fn hive_file_path(s: Seq<char>) -> Seq<char> {
    if path_components(s).len() >= 2 {
        seq!['/'] + path_rest(s)
    } else {
        seq!['/']
    }
}

/// The two parts of a `hive://` path: the text of its first component,
/// which names the replica, and the file path within the replica. `None`
/// when the path has no component at all.
pub fn split_hive_path(path: &str) -> (r: Option<(String, String)>)
    ensures
        r is Some <==> path_components(path@).len() > 0,
        r matches Some((replica, file)) ==> replica@ == path_components(path@)[0] && file@
            == hive_file_path(path@),
{
    let mut cs = components(path);
    if cs.len() == 0 {
        return None;
    }
    let mut file = String::new();
    push_char(&mut file, '/');
    if cs.len() >= 2 {
        let rest = rest_after_first(path);
        file.append(rest.as_str());
    }
    Some((cs.swap_remove(0), file))
}

impl HivePath {
    /// Names the replica of a `hive://` path once its first component has
    /// been read: a valid ticket wins over a namespace identifier, and a
    /// component that is neither names no replica.
    pub fn from_parts(
        replica: String,
        file: String,
        is_ticket: bool,
        namespace_id: Option<Vec<u8>>,
    ) -> (r: Option<HivePath>)
        ensures
            is_ticket ==> r == Some(HivePath::ByTicket(replica, file)),
            !is_ticket && namespace_id is Some ==> r == Some(
                HivePath::ById(namespace_id->0, file),
            ),
            !is_ticket && namespace_id is None ==> r is None,
    {
        if is_ticket {
            Some(HivePath::ByTicket(replica, file))
        } else {
            match namespace_id {
                Some(id) => Some(HivePath::ById(id, file)),
                None => None,
            }
        }
    }
}

} // verus!
