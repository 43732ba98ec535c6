//! The statements that set up the vote database and look into it.

use vstd::prelude::*;
use crate::config::views;
use crate::text::{decimal, push_decimal, push_str};

verus! {

/// Drops the table of tags that older versions kept.
pub open spec fn drop_tags_text() -> Seq<char> {
    "DROP TABLE IF EXISTS tags"@
}

/// Creates the table of votes.
pub open spec fn create_images_text() -> Seq<char> {
    "CREATE TABLE IF NOT EXISTS images (id INT NOT NULL, liked BOOL, disliked BOOL, PRIMARY KEY (id))"@
}

/// Creates the table of published votes that older versions read.
pub open spec fn create_published_text() -> Seq<char> {
    "CREATE TABLE IF NOT EXISTS published (id INT UNIQUE NOT NULL, processed BOOL NOT NULL, vote BOOL NOT NULL, PRIMARY KEY (id))"@
}

/// The statements that prepare the database, in order: with backward
/// compatibility the older table of published votes is kept and created
/// if missing; without it the older table of tags is dropped. The table
/// of votes is created if missing either way.
pub fn schema_statements(backward_compatibility: bool) -> (v: Vec<String>)
    ensures
        backward_compatibility ==> views(v@) == seq![create_images_text(), create_published_text()],
        !backward_compatibility ==> views(v@) == seq![drop_tags_text(), create_images_text()],
{
    let mut v: Vec<String> = Vec::new();
    if !backward_compatibility {
        v.push(String::from_str("DROP TABLE IF EXISTS tags"));
    }
    v.push(
        String::from_str(
            "CREATE TABLE IF NOT EXISTS images (id INT NOT NULL, liked BOOL, disliked BOOL, PRIMARY KEY (id))",
        ),
    );
    if backward_compatibility {
        v.push(
            String::from_str(
                "CREATE TABLE IF NOT EXISTS published (id INT UNIQUE NOT NULL, processed BOOL NOT NULL, vote BOOL NOT NULL, PRIMARY KEY (id))",
            ),
        );
    }
    if backward_compatibility {
        assert(views(v@) =~= seq![create_images_text(), create_published_text()]);
    } else {
        assert(views(v@) =~= seq![drop_tags_text(), create_images_text()]);
    }
    v
}

/// The query that counts the recorded votes on post `id`.
pub fn vote_count_query(id: u32) -> (s: String)
    ensures
        s@ == "SELECT COUNT(*) FROM images WHERE id="@ + decimal(id as nat),
{
    let mut s = String::from_str("SELECT COUNT(*) FROM images WHERE id=");
    push_decimal(&mut s, id as u64);
    s
}

} // verus!
