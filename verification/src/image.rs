//! Image references of the form `[registry/][path/]name[:tag][@digest]`.

use vstd::prelude::*;

verus! {

/// The tag given to a reference that carries none.
pub open spec fn default_tag() -> Seq<char> {
    "latest"@
}

/// Position of the first `c` in `s`, if `s` holds one.
pub open spec fn first_pos(s: Seq<char>, c: char) -> Option<int>
    decreases s.len(),
{
    if s.len() == 0 {
        None
    } else if s.first() == c {
        Some(0)
    } else {
        match first_pos(s.drop_first(), c) {
            Some(i) => Some(i + 1),
            None => None,
        }
    }
}

/// Position of the last `c` in `s`, if `s` holds one.
pub open spec fn last_pos(s: Seq<char>, c: char) -> Option<int>
    decreases s.len(),
{
    if s.len() == 0 {
        None
    } else if s.last() == c {
        Some(s.len() - 1)
    } else {
        last_pos(s.drop_last(), c)
    }
}

/// The part of `s` in front of its first `@`: the reference without its digest.
pub open spec fn without_digest(s: Seq<char>) -> Seq<char> {
    match first_pos(s, '@') {
        Some(i) => s.take(i),
        None => s,
    }
}

/// What follows the first `@` of `s`; empty where `s` holds no `@`.
pub open spec fn digest_of(s: Seq<char>) -> Seq<char> {
    match first_pos(s, '@') {
        Some(i) => s.skip(i + 1),
        None => Seq::empty(),
    }
}

/// The part of `s` in front of the tag: `without_digest(s)` cut before its
/// last `:`.
pub open spec fn without_tag(s: Seq<char>) -> Seq<char> {
    let w = without_digest(s);
    match last_pos(w, ':') {
        Some(i) => w.take(i),
        None => w,
    }
}

/// What follows the last `:` of `without_digest(s)`; `"latest"` where it holds
/// no `:`. The search does not stop at a `/`, so the port of a registry is
/// taken for a tag when the reference carries no tag of its own.
pub open spec fn tag_of(s: Seq<char>) -> Seq<char> {
    let w = without_digest(s);
    match last_pos(w, ':') {
        Some(i) => w.skip(i + 1),
        None => default_tag(),
    }
}

/// Whether the first of several `/`-separated segments of `path` names a
/// registry: it does when it holds a `.` or a `:`.
pub open spec fn leads_with_registry(path: Seq<char>) -> bool {
    match first_pos(path, '/') {
        Some(i) => path.take(i).contains('.') || path.take(i).contains(':'),
        None => false,
    }
}

/// The registry of `s`; empty where the default registry is meant.
pub open spec fn registry_of(s: Seq<char>) -> Seq<char> {
    let path = without_tag(s);
    if leads_with_registry(path) {
        path.take(first_pos(path, '/').unwrap())
    } else {
        Seq::empty()
    }
}

/// The repository name of `s`.
pub open spec fn name_of(s: Seq<char>) -> Seq<char> {
    let path = without_tag(s);
    if leads_with_registry(path) {
        path.skip(first_pos(path, '/').unwrap() + 1)
    } else {
        path
    }
}

/// Whether `s` carries a digest: it holds an `@`.
pub open spec fn has_digest(s: Seq<char>) -> bool {
    s.contains('@')
}

/// Whether `s` carries a tag of its own: a `:` stands in front of its digest.
pub open spec fn has_tag(s: Seq<char>) -> bool {
    without_digest(s).contains(':')
}

/// The reference that names `name` in `registry`, with `tag` and `digest`, each
/// of the three where it is given.
pub open spec fn written(
    registry: Option<Seq<char>>,
    name: Seq<char>,
    tag: Option<Seq<char>>,
    digest: Option<Seq<char>>,
) -> Seq<char> {
    (match registry {
        Some(r) => r.push('/'),
        None => Seq::empty(),
    }) + name + (match tag {
        Some(t) => seq![':'] + t,
        None => Seq::empty(),
    }) + (match digest {
        Some(d) => seq!['@'] + d,
        None => Seq::empty(),
    })
}

/// `first_pos` finds exactly the least index that holds `c`.
pub proof fn lemma_first_pos(s: Seq<char>, c: char)
    ensures
        first_pos(s, c) is Some <==> s.contains(c),
        first_pos(s, c) matches Some(i) ==> 0 <= i < s.len() && s[i] == c && forall|j: int|
            0 <= j < i ==> s[j] != c,
    decreases s.len(),
{
    if s.len() > 0 && s.first() != c {
        let rest = s.drop_first();
        lemma_first_pos(rest, c);
        if s.contains(c) {
            let k = choose|k: int| 0 <= k < s.len() && s[k] == c;
            assert(rest[k - 1] == c);
        }
        if let Some(i) = first_pos(rest, c) {
            assert(s[i + 1] == c);
            assert forall|j: int| 0 <= j < i + 1 implies s[j] != c by {
                if j > 0 {
                    assert(rest[j - 1] != c);
                }
            }
        }
    } else if s.len() > 0 {
        assert(s[0] == c);
    }
}

/// `last_pos` finds exactly the greatest index that holds `c`.
pub proof fn lemma_last_pos(s: Seq<char>, c: char)
    ensures
        last_pos(s, c) is Some <==> s.contains(c),
        last_pos(s, c) matches Some(i) ==> 0 <= i < s.len() && s[i] == c && forall|j: int|
            i < j < s.len() ==> s[j] != c,
    decreases s.len(),
{
    if s.len() > 0 && s.last() != c {
        let init = s.drop_last();
        lemma_last_pos(init, c);
        if s.contains(c) {
            let k = choose|k: int| 0 <= k < s.len() && s[k] == c;
            assert(init[k] == c);
        }
        if let Some(i) = last_pos(init, c) {
            assert(s[i] == c);
            assert forall|j: int| i < j < s.len() implies s[j] != c by {
                if j < init.len() {
                    assert(init[j] != c);
                }
            }
        }
    } else if s.len() > 0 {
        assert(s[s.len() - 1] == c);
    }
}

/// An index that holds `c` and has no `c` in front of it is the first position
/// of `c`.
pub proof fn lemma_first_pos_at(s: Seq<char>, c: char, i: int)
    requires
        0 <= i < s.len(),
        s[i] == c,
        forall|j: int| 0 <= j < i ==> s[j] != c,
    ensures
        first_pos(s, c) == Some(i),
{
    lemma_first_pos(s, c);
}

/// An index that holds `c` and has no `c` behind it is the last position of
/// `c`.
pub proof fn lemma_last_pos_at(s: Seq<char>, c: char, i: int)
    requires
        0 <= i < s.len(),
        s[i] == c,
        forall|j: int| i < j < s.len() ==> s[j] != c,
    ensures
        last_pos(s, c) == Some(i),
{
    lemma_last_pos(s, c);
}

/// The four parts of a reference depend on its characters alone: two references
/// that read the same have the same registry, name, tag and digest.
pub proof fn lemma_parts_determined_by_text(a: &str, b: &str)
    requires
        a@ == b@,
    ensures
        registry_of(a@) == registry_of(b@),
        name_of(a@) == name_of(b@),
        tag_of(a@) == tag_of(b@),
        digest_of(a@) == digest_of(b@),
{
}

/// The tag does not depend on the digest: a reference and the same reference
/// with its digest cut off have the same tag, and the tag is `"latest"`
/// whenever no `:` stands in front of the digest.
pub proof fn lemma_tag_ignores_digest(s: Seq<char>)
    ensures
        tag_of(s) == tag_of(without_digest(s)),
        has_tag(s) == has_tag(without_digest(s)),
        !has_tag(s) ==> tag_of(s) == default_tag(),
{
    let w = without_digest(s);
    lemma_first_pos(s, '@');
    lemma_first_pos(w, '@');
    lemma_last_pos(w, ':');
    if w.contains('@') {
        let k = choose|k: int| 0 <= k < w.len() && w[k] == '@';
        assert(s[k] == '@');
    }
    assert(without_digest(w) == w);
}

/// Nothing of a reference is lost: registry and `/` (where a registry was
/// found), name, `:` and tag (where a tag was found), `@` and digest (where a
/// digest was found), put together in this order, give the reference back.
pub proof fn lemma_parts_rebuild(s: Seq<char>)
    ensures
        s == written(
            if leads_with_registry(without_tag(s)) {
                Some(registry_of(s))
            } else {
                None
            },
            name_of(s),
            if has_tag(s) {
                Some(tag_of(s))
            } else {
                None
            },
            if has_digest(s) {
                Some(digest_of(s))
            } else {
                None
            },
        ),
{
    let w = without_digest(s);
    let path = without_tag(s);
    lemma_first_pos(s, '@');
    lemma_last_pos(w, ':');
    lemma_first_pos(path, '/');
    let head = if leads_with_registry(path) {
        registry_of(s).push('/')
    } else {
        Seq::empty()
    };
    let tagged = if has_tag(s) {
        seq![':'] + tag_of(s)
    } else {
        Seq::empty()
    };
    let digested = if has_digest(s) {
        seq!['@'] + digest_of(s)
    } else {
        Seq::empty()
    };
    assert(head + name_of(s) =~= path);
    assert(path + tagged =~= w);
    assert(w + digested =~= s);
}

/// What each part can hold: no `@` stands in registry, name or tag, no `:` in
/// the tag of a reference that has one, and no `/` in the registry; a registry
/// is found exactly where it is not empty, and then it holds a `.` or a `:`.
pub proof fn lemma_parts_separated(s: Seq<char>)
    ensures
        !registry_of(s).contains('@'),
        !name_of(s).contains('@'),
        has_tag(s) ==> !tag_of(s).contains('@') && !tag_of(s).contains(':'),
        !registry_of(s).contains('/'),
        leads_with_registry(without_tag(s)) <==> registry_of(s).len() > 0,
        registry_of(s).len() > 0 ==> registry_of(s).contains('.') || registry_of(s).contains(':'),
{
    let w = without_digest(s);
    let path = without_tag(s);
    lemma_first_pos(s, '@');
    lemma_last_pos(w, ':');
    lemma_first_pos(path, '/');
    let registry = registry_of(s);
    let name = name_of(s);
    let tag = tag_of(s);
    assert forall|k: int| 0 <= k < path.len() implies path[k] != '@' by {
        assert(path[k] == w[k] && w[k] == s[k]);
    }
    if registry.contains('@') {
        let k = choose|k: int| 0 <= k < registry.len() && registry[k] == '@';
        assert(path[k] == '@');
    }
    if name.contains('@') {
        let k = choose|k: int| 0 <= k < name.len() && name[k] == '@';
        assert(path[k + (path.len() - name.len())] == '@');
    }
    if registry.contains('/') {
        let k = choose|k: int| 0 <= k < registry.len() && registry[k] == '/';
        assert(path[k] == '/');
    }
    if has_tag(s) {
        let colon = last_pos(w, ':').unwrap();
        if tag.contains('@') {
            let k = choose|k: int| 0 <= k < tag.len() && tag[k] == '@';
            assert(w[colon + 1 + k] == '@');
            assert(s[colon + 1 + k] == '@');
        }
        if tag.contains(':') {
            let k = choose|k: int| 0 <= k < tag.len() && tag[k] == ':';
            assert(w[colon + 1 + k] == ':');
        }
    }
    if leads_with_registry(path) {
        let slash = first_pos(path, '/').unwrap();
        if path.take(slash).contains('.') {
            let k = choose|k: int| 0 <= k < path.take(slash).len() && path.take(slash)[k] == '.';
            assert(slash > 0);
        } else {
            let k = choose|k: int| 0 <= k < path.take(slash).len() && path.take(slash)[k] == ':';
            assert(slash > 0);
        }
    }
}

/// A reference that is written from its parts is read back as these parts,
/// where the parts hold no separator that would be read as one: no `@` but in
/// the digest, no `:` in the tag, no `/` in the registry, a `.` or a `:` in the
/// registry, and, where no registry is given, a name that does not lead with
/// one. Where no tag is given, neither registry nor name may hold a `:`, as the
/// last of them would be read as the start of a tag.
pub proof fn lemma_written_reads_back(
    registry: Option<Seq<char>>,
    name: Seq<char>,
    tag: Option<Seq<char>>,
    digest: Option<Seq<char>>,
)
    requires
        !name.contains('@'),
        registry matches Some(r) ==> !r.contains('@') && !r.contains('/') && (r.contains('.')
            || r.contains(':')),
        registry is None ==> !leads_with_registry(name),
        tag matches Some(t) ==> !t.contains('@') && !t.contains(':'),
        tag is None ==> !name.contains(':') && (registry matches Some(r) ==> !r.contains(':')),
    ensures
        registry_of(written(registry, name, tag, digest)) == match registry {
            Some(r) => r,
            None => Seq::empty(),
        },
        name_of(written(registry, name, tag, digest)) == name,
        tag_of(written(registry, name, tag, digest)) == match tag {
            Some(t) => t,
            None => default_tag(),
        },
        digest_of(written(registry, name, tag, digest)) == match digest {
            Some(d) => d,
            None => Seq::empty(),
        },
{
    let s = written(registry, name, tag, digest);
    let head: Seq<char> = match registry {
        Some(r) => r.push('/'),
        None => Seq::empty(),
    };
    let tagged: Seq<char> = match tag {
        Some(t) => seq![':'] + t,
        None => Seq::empty(),
    };
    let path = head + name;
    let body = path + tagged;

    // No `@` stands in front of the digest.
    assert forall|k: int| 0 <= k < path.len() implies path[k] != '@' by {
        if k < head.len() {
            let r = registry.unwrap();
            if k < r.len() {
                assert(r[k] == path[k]);
            }
        } else {
            assert(name[k - head.len()] == path[k]);
        }
    }
    assert forall|k: int| 0 <= k < body.len() implies body[k] != '@' by {
        if k > path.len() {
            assert(tag.unwrap()[k - path.len() - 1] == body[k]);
        }
    }
    lemma_first_pos(s, '@');
    match digest {
        Some(d) => {
            assert(s =~= body + (seq!['@'] + d));
            lemma_first_pos_at(s, '@', body.len() as int);
            assert(s.take(body.len() as int) =~= body);
            assert(s.skip(body.len() as int + 1) =~= d);
        },
        None => {
            assert(s =~= body);
        },
    }
    assert(without_digest(s) == body);

    // The last `:` in front of the digest starts the tag.
    lemma_last_pos(body, ':');
    match tag {
        Some(t) => {
            assert forall|j: int| path.len() < j < body.len() implies body[j] != ':' by {
                assert(t[j - path.len() - 1] == body[j]);
            }
            lemma_last_pos_at(body, ':', path.len() as int);
            assert(body.take(path.len() as int) =~= path);
            assert(body.skip(path.len() as int + 1) =~= t);
        },
        None => {
            assert(body =~= path);
            if path.contains(':') {
                let k = choose|k: int| 0 <= k < path.len() && path[k] == ':';
                if k < head.len() {
                    let r = registry.unwrap();
                    if k < r.len() {
                        assert(r[k] == ':');
                    }
                } else {
                    assert(name[k - head.len()] == ':');
                }
            }
        },
    }
    assert(without_tag(s) == path);

    // The first `/` ends the registry.
    match registry {
        Some(r) => {
            assert forall|j: int| 0 <= j < r.len() implies path[j] != '/' by {
                assert(r[j] == path[j]);
            }
            lemma_first_pos_at(path, '/', r.len() as int);
            assert(path.take(r.len() as int) =~= r);
            assert(path.skip(r.len() as int + 1) =~= name);
        },
        None => {
            assert(path =~= name);
        },
    }
}

/// The characters of `text`, in order.
fn chars_of(text: &str) -> (chars: Vec<char>)
    ensures
        chars@ == text@,
{
    let mut chars: Vec<char> = Vec::new();
    for c in it: text.chars()
        invariant
            it.seq() == text@,
            chars@ == it.seq().take(it.index() as int),
    {
        chars.push(c);
    }
    chars
}

/// The first index below `end` at which `chars` holds `c`.
fn find_first(chars: &Vec<char>, end: usize, c: char) -> (found: Option<usize>)
    requires
        end <= chars.len(),
    ensures
        found is Some <==> chars@.take(end as int).contains(c),
        found matches Some(i) ==> i < end && first_pos(chars@.take(end as int), c) == Some(
            i as int,
        ),
        found is None ==> first_pos(chars@.take(end as int), c) is None,
{
    let ghost window = chars@.take(end as int);
    let mut i: usize = 0;
    while i < end
        invariant
            i <= end <= chars.len(),
            window == chars@.take(end as int),
            window.len() == end,
            forall|j: int| 0 <= j < i ==> window[j] != c,
        decreases end - i,
    {
        if chars[i] == c {
            proof {
                lemma_first_pos(window, c);
                lemma_first_pos_at(window, c, i as int);
            }
            return Some(i);
        }
        i += 1;
    }
    proof {
        lemma_first_pos(window, c);
    }
    None
}

/// The last index below `end` at which `chars` holds `c`.
fn find_last(chars: &Vec<char>, end: usize, c: char) -> (found: Option<usize>)
    requires
        end <= chars.len(),
    ensures
        found is Some <==> chars@.take(end as int).contains(c),
        found matches Some(i) ==> i < end && last_pos(chars@.take(end as int), c) == Some(
            i as int,
        ),
        found is None ==> last_pos(chars@.take(end as int), c) is None,
{
    let ghost window = chars@.take(end as int);
    let mut i: usize = end;
    while i > 0
        invariant
            i <= end <= chars.len(),
            window == chars@.take(end as int),
            window.len() == end,
            forall|j: int| i <= j < end ==> window[j] != c,
        decreases i,
    {
        i -= 1;
        if chars[i] == c {
            proof {
                lemma_last_pos(window, c);
                lemma_last_pos_at(window, c, i as int);
            }
            return Some(i);
        }
    }
    proof {
        lemma_last_pos(window, c);
    }
    None
}

/// Splits an image reference into `(registry, name, tag, digest)`.
///
/// The digest is what follows the first `@`. The tag is what follows the last
/// `:` of the rest, or `"latest"`. Of what then remains, the segment in front
/// of the first `/` is the registry if it holds a `.` or a `:`, and the name is
/// what follows that `/`; otherwise the registry is empty and the name is all
/// that remains.
pub fn parse_image(image: &str) -> (parts: (String, String, String, String))
    ensures
        parts.0@ == registry_of(image@),
        parts.1@ == name_of(image@),
        parts.2@ == tag_of(image@),
        parts.3@ == digest_of(image@),
{
    let chars = chars_of(image);
    let n = chars.len();
    assert(chars@.take(n as int) == image@);

    let (body_end, digest) = match find_first(&chars, n, '@') {
        Some(at) => (at, image.substring_char(at + 1, n).to_owned()),
        None => (n, String::new()),
    };
    assert(chars@.take(body_end as int) == without_digest(image@));

    let (path_end, tag) = match find_last(&chars, body_end, ':') {
        Some(colon) => (colon, image.substring_char(colon + 1, body_end).to_owned()),
        None => (body_end, "latest".to_owned()),
    };
    let ghost path = without_tag(image@);
    assert(chars@.take(path_end as int) == path);
    assert(image@.subrange(0, path_end as int) == path);

    match find_first(&chars, path_end, '/') {
        Some(slash) => {
            assert(chars@.take(slash as int) == path.take(slash as int));
            let dotted = find_first(&chars, slash, '.').is_some();
            let with_port = find_first(&chars, slash, ':').is_some();
            if dotted || with_port {
                let registry = image.substring_char(0, slash).to_owned();
                let name = image.substring_char(slash + 1, path_end).to_owned();
                assert(image@.subrange(0, slash as int) == path.take(slash as int));
                assert(image@.subrange(slash + 1, path_end as int) == path.skip(slash + 1));
                (registry, name, tag, digest)
            } else {
                (String::new(), image.substring_char(0, path_end).to_owned(), tag, digest)
            }
        },
        None => (String::new(), image.substring_char(0, path_end).to_owned(), tag, digest),
    }
}

} // verus!
