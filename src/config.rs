use vstd::prelude::*;

verus! {

/// Settings of the application.
#[derive(Debug, Clone)]
pub struct AppConfig {
    /// Key of the remote accounting service, where one is set.
    pub admin_api_key: Option<String>,
}

impl Default for AppConfig {
    fn default() -> (r: AppConfig)
        ensures
            r.admin_api_key is None,
    {
        AppConfig { admin_api_key: None }
    }
}

/// Position of the first `-` in `k`.
pub open spec fn dash_index(k: Seq<char>) -> Option<int>
    decreases k.len(),
{
    if k.len() == 0 {
        None
    } else if k[0] == '-' {
        Some(0)
    } else {
        match dash_index(k.drop_first()) {
            Some(i) => Some(i + 1),
            None => None,
        }
    }
}

/// The key as it may be shown: stars for a key of at most 8 characters;
/// otherwise the part up to its first `-` (or its first 4 characters where it
/// has none), `...`, and its last 4 characters.
pub open spec fn masked(k: Seq<char>) -> Seq<char> {
    if k.len() <= 8 {
        Seq::new(k.len(), |i: int| '*')
    } else {
        let p = match dash_index(k) {
            Some(i) => i + 1,
            None => 4,
        };
        k.subrange(0, p) + "..."@ + k.subrange(k.len() - 4, k.len() as int)
    }
}

proof fn lemma_dash_index(k: Seq<char>, i: int)
    requires
        0 <= i <= k.len(),
        forall|a: int| 0 <= a < i ==> k[a] != '-',
    ensures
        i < k.len() && k[i] == '-' ==> dash_index(k) == Some(i),
        i == k.len() ==> dash_index(k) is None,
    decreases i,
{
    if i > 0 {
        lemma_dash_index(k.drop_first(), i - 1);
    } else if k.len() > 0 {
    }
}

pub fn mask_api_key(key: &str) -> (r: String)
    ensures
        r@ == masked(key@),
{
    let n = key.unicode_len();
    if n <= 8 {
        let mut s = String::new();
        let mut i: usize = 0;
        while i < n
            invariant
                i <= n,
                s@ == Seq::new(i as nat, |j: int| '*'),
            decreases n - i,
        {
            proof {
                reveal_strlit("*");
            }
            s.append("*");
            assert(s@ =~= Seq::new((i + 1) as nat, |j: int| '*'));
            i += 1;
        }
        return s;
    }
    let mut i: usize = 0;
    while i < n && key.get_char(i) != '-'
        invariant
            i <= n,
            n == key@.len(),
            forall|a: int| 0 <= a < i ==> key@[a] != '-',
        decreases n - i,
    {
        i += 1;
    }
    proof {
        lemma_dash_index(key@, i as int);
    }
    let p = if i < n {
        i + 1
    } else {
        4
    };
    let mut s = key.substring_char(0, p).to_owned();
    s.append("...");
    s.append(key.substring_char(n - 4, n));
    s
}

} // verus!
