//! Where the API token is kept: `~/.config/clickdown/token`.

use vstd::prelude::*;
use crate::text::copy_str;
use crate::utils::{path_push, push_path};

verus! {

/// The directory that holds the client's files, under the home directory
/// `home`.
pub fn clickdown_dir_path(home: &str) -> (r: String)
    ensures
        r@ == path_push(home@, ".config/clickdown"@),
{
    push_path(home, ".config/clickdown")
}

/// The file the token is read from: `token` in the client's directory.
pub fn token_read_path(dir: &str) -> (r: String)
    ensures
        r@ == path_push(dir@, "token"@),
{
    push_path(dir, "token")
}

/// The file a token given on the command line is saved to, under the home
/// directory `home`.
pub fn token_save_path(home: &str) -> (r: String)
    ensures
        r@ == path_push(home@, ".config/clickdown/token"@),
{
    push_path(home, ".config/clickdown/token")
}

/// The token to write to the token file, if any: a token given on the
/// command line is saved unless it is empty.
pub fn token_to_save(token: &str) -> (r: Option<String>)
    ensures
        r is None <==> token@.len() == 0,
        r matches Some(t) ==> t@ == token@,
{
    if token.is_empty() {
        None
    } else {
        Some(copy_str(token))
    }
}

/// A saved token is read back from the file it was saved to: the path the
/// token is read from, in the client's directory under `home`, is the path
/// it is saved to under `home`.
pub proof fn lemma_token_paths_agree(home: Seq<char>)
    ensures
        path_push(path_push(home, ".config/clickdown"@), "token"@) == path_push(
            home,
            ".config/clickdown/token"@,
        ),
{
    reveal_strlit(".config/clickdown");
    reveal_strlit(".config/clickdown/token");
    reveal_strlit("token");
    reveal_strlit("/");
    let dir = path_push(home, ".config/clickdown"@);
    assert(dir.len() > 0);
    assert(dir.last() == 'n');
    assert(".config/clickdown"@ + "/"@ + "token"@ =~= ".config/clickdown/token"@);
    if home.len() == 0 {
    } else if home.last() == '/' {
        assert(home + ".config/clickdown"@ + "/"@ + "token"@ =~= home + ".config/clickdown/token"@);
    } else {
        assert(home + "/"@ + ".config/clickdown"@ + "/"@ + "token"@ =~= home + "/"@ + ".config/clickdown/token"@);
    }
}

} // verus!
