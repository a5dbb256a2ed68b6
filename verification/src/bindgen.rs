use vstd::prelude::*;

use crate::text::{chars_eq, chars_of, chars_start_with, has_prefix};

verus! {

/// A lowercase hexadecimal digit, `0-9` or `a-f`.
pub open spec fn is_lower_hex(c: char) -> bool {
    ('0' <= c && c <= '9') || ('a' <= c && c <= 'f')
}

/// `name[i]` is an underscore followed by at least eight characters to the
/// end of the name, all of them lowercase hexadecimal digits.
pub open spec fn hash_suffix_at(name: Seq<char>, i: int) -> bool {
    &&& 0 <= i
    &&& i + 8 < name.len()
    &&& name[i] == '_'
    &&& forall|k: int| i < k < name.len() ==> is_lower_hex(#[trigger] name[k])
}

/// A name with wasm-bindgen's trailing `_<hash>` removed, or the name itself
/// when it has no such suffix.
pub open spec fn strip_hash(name: Seq<char>) -> Seq<char> {
    if exists|i: int| hash_suffix_at(name, i) {
        name.take(choose|i: int| hash_suffix_at(name, i))
    } else {
        name
    }
}

/// There is at most one place where a hash suffix starts: the underscore
/// that begins it is the name's last one.
pub proof fn lemma_hash_suffix_unique(name: Seq<char>, i: int, j: int)
    requires
        hash_suffix_at(name, i),
        hash_suffix_at(name, j),
    ensures
        i == j,
{
    if i < j {
        assert(is_lower_hex(name[j]));
    } else if j < i {
        assert(is_lower_hex(name[i]));
    }
}

/// Stripping keeps a prefix of the name; when it removes anything, what it
/// removed is an underscore followed by at least eight lowercase hex digits.
pub proof fn lemma_strip_hash_shape(name: Seq<char>)
    ensures
        strip_hash(name).len() <= name.len(),
        strip_hash(name) == name.take(strip_hash(name).len() as int),
        strip_hash(name) != name ==> {
            let i = strip_hash(name).len() as int;
            &&& name[i] == '_'
            &&& name.len() - i - 1 >= 8
            &&& forall|k: int| i < k < name.len() ==> is_lower_hex(#[trigger] name[k])
        },
{
    if exists|i: int| hash_suffix_at(name, i) {
        let i = choose|i: int| hash_suffix_at(name, i);
        assert(strip_hash(name).len() == i);
    } else {
        assert(name.take(name.len() as int) =~= name);
    }
}

/// The host function an import gets depends on its name only through the
/// name with the hash stripped: two builds that differ only in their hash
/// suffixes bind the same way.
pub proof fn lemma_handler_ignores_hash(
    a: Seq<char>,
    b: Seq<char>,
    params: Seq<ValKind>,
    results: Seq<ValKind>,
)
    requires
        strip_hash(a) == strip_hash(b),
    ensures
        import_handler(a, params, results) == import_handler(b, params, results),
{
}

/// Strips wasm-bindgen's trailing `_<hash>` from an import name, so that
/// `__wbg_log_8cec76766b8c0e33` becomes `__wbg_log`. The hash is the part
/// after the last underscore when it is a run of at least eight lowercase
/// hex digits; names without one come back unchanged.
pub fn strip_bindgen_hash(name: &str) -> (base: &str)
    ensures
        base@ == strip_hash(name@),
{
    let v = chars_of(name);
    let n = v.len();
    let mut i: usize = n;
    while i > 0
        invariant
            v@ == name@,
            n == v@.len(),
            i <= n,
            forall|k: int| i <= k < n ==> v@[k] != '_',
        ensures
            i <= n,
            forall|k: int| i <= k < n ==> v@[k] != '_',
            i == 0 || v@[i - 1] == '_',
        decreases i,
    {
        if v[i - 1] == '_' {
            break;
        }
        i = i - 1;
    }
    if i == 0 {
        // no underscore at all
        assert forall|k: int| !hash_suffix_at(name@, k) by {
            if 0 <= k < n {
                assert(v@[k] != '_');
            }
        }
        return name;
    }
    let u = i - 1;
    assert(v@[u as int] == '_');
    if n - i < 8 {
        assert forall|k: int| !hash_suffix_at(name@, k) by {
            if hash_suffix_at(name@, k) && k != u {
                if k < u {
                    assert(is_lower_hex(name@[u as int]));
                } else {
                    assert(v@[k] != '_');
                }
            }
        }
        return name;
    }
    let mut k: usize = i;
    while k < n
        invariant
            v@ == name@,
            n == v@.len(),
            i <= k <= n,
            u + 1 == i,
            v@[u as int] == '_',
            forall|m: int| i <= m < n ==> v@[m] != '_',
            forall|m: int| i <= m < k ==> is_lower_hex(#[trigger] v@[m]),
        decreases n - k,
    {
        let c = v[k];
        if !(('0' <= c && c <= '9') || ('a' <= c && c <= 'f')) {
            assert forall|m: int| !hash_suffix_at(name@, m) by {
                if hash_suffix_at(name@, m) {
                    if m < u {
                        assert(is_lower_hex(name@[u as int]));
                    } else if m > u {
                        assert(v@[m] != '_');
                    } else {
                        assert(is_lower_hex(name@[k as int]));
                    }
                }
            }
            return name;
        }
        k = k + 1;
    }
    assert(hash_suffix_at(name@, u as int));
    proof {
        let c = choose|m: int| hash_suffix_at(name@, m);
        lemma_hash_suffix_unique(name@, c, u as int);
    }
    name.substring_char(0, u)
}

/// The type of a wasm function parameter or result, as far as import
/// binding tells types apart.
#[derive(PartialEq, Eq, Structural, Clone, Copy, Debug)]
pub enum ValKind {
    I32,
    F64,
    /// A reference whose heap type is `extern`.
    ExternRef,
    /// Any other value type.
    Other,
}

/// The host function that an engine import is bound to.
#[derive(PartialEq, Eq, Structural, Clone, Copy, Debug)]
pub enum ImportHandler {
    /// `__wbindgen_init_externref_table`: seed the externref table.
    InitExternrefTable,
    /// `console.log` / `console.warn`.
    Log,
    /// `globalThis.crypto`.
    Crypto,
    /// `process` / `versions` / `node` / `msCrypto`: all `undefined`.
    Undefined,
    /// `getRandomValues` / `randomFillSync`.
    GetRandomValues,
    IsObject,
    IsString,
    IsFunction,
    IsUndefined,
    /// `__wbindgen_throw`.
    Throw,
    /// The `(ptr, len) -> externref` cast intrinsic.
    Cast,
    /// A `static_accessor_*` getter for `globalThis`.
    StaticAccessor,
}

/// The signature `params -> results`, written one kind per value.
pub open spec fn sig_is(
    params: Seq<ValKind>,
    results: Seq<ValKind>,
    want_params: Seq<ValKind>,
    want_results: Seq<ValKind>,
) -> bool {
    params == want_params && results == want_results
}

/// Which host function an import is bound to, from its name with the hash
/// stripped and its signature; `None` for every import that traps.
pub open spec fn import_handler(
    name: Seq<char>,
    params: Seq<ValKind>,
    results: Seq<ValKind>,
) -> Option<ImportHandler> {
    let b = strip_hash(name);
    let none = Seq::<ValKind>::empty();
    let e = seq![ValKind::ExternRef];
    let i = seq![ValKind::I32];
    let ee = seq![ValKind::ExternRef, ValKind::ExternRef];
    let ii = seq![ValKind::I32, ValKind::I32];
    if b == "__wbindgen_init_externref_table"@ && sig_is(params, results, none, none) {
        Some(ImportHandler::InitExternrefTable)
    } else if (b == "__wbg_log"@ || b == "__wbg_warn"@) && sig_is(params, results, e, none) {
        Some(ImportHandler::Log)
    } else if b == "__wbg_crypto"@ && sig_is(params, results, e, e) {
        Some(ImportHandler::Crypto)
    } else if (b == "__wbg_process"@ || b == "__wbg_versions"@ || b == "__wbg_node"@ || b
        == "__wbg_msCrypto"@) && sig_is(params, results, e, e) {
        Some(ImportHandler::Undefined)
    } else if (b == "__wbg_getRandomValues"@ || b == "__wbg_randomFillSync"@) && sig_is(
        params,
        results,
        ee,
        none,
    ) {
        Some(ImportHandler::GetRandomValues)
    } else if b == "__wbg___wbindgen_is_object"@ && sig_is(params, results, e, i) {
        Some(ImportHandler::IsObject)
    } else if b == "__wbg___wbindgen_is_string"@ && sig_is(params, results, e, i) {
        Some(ImportHandler::IsString)
    } else if b == "__wbg___wbindgen_is_function"@ && sig_is(params, results, e, i) {
        Some(ImportHandler::IsFunction)
    } else if b == "__wbg___wbindgen_is_undefined"@ && sig_is(params, results, e, i) {
        Some(ImportHandler::IsUndefined)
    } else if b == "__wbg___wbindgen_throw"@ && sig_is(params, results, ii, none) {
        Some(ImportHandler::Throw)
    } else if b == "__wbindgen_cast"@ && sig_is(params, results, ii, e) {
        Some(ImportHandler::Cast)
    } else if has_prefix(b, "__wbg_static_accessor_"@) && sig_is(params, results, none, i) {
        Some(ImportHandler::StaticAccessor)
    } else {
        None
    }
}

/// The wasm-bindgen imports that the synchronous conversion uses, each with
/// the signature it has and the host function it is bound to, whatever hash
/// suffix the build gave its name.
pub proof fn lemma_wasm_bindgen_bindings(name: Seq<char>)
    ensures
        strip_hash(name) == "__wbindgen_init_externref_table"@ ==> import_handler(
            name,
            seq![],
            seq![],
        ) == Some(ImportHandler::InitExternrefTable),
        strip_hash(name) == "__wbg_log"@ || strip_hash(name) == "__wbg_warn"@ ==> import_handler(
            name,
            seq![ValKind::ExternRef],
            seq![],
        ) == Some(ImportHandler::Log),
        strip_hash(name) == "__wbg_crypto"@ ==> import_handler(
            name,
            seq![ValKind::ExternRef],
            seq![ValKind::ExternRef],
        ) == Some(ImportHandler::Crypto),
        strip_hash(name) == "__wbg_process"@ || strip_hash(name) == "__wbg_versions"@ || strip_hash(
            name,
        ) == "__wbg_node"@ || strip_hash(name) == "__wbg_msCrypto"@ ==> import_handler(
            name,
            seq![ValKind::ExternRef],
            seq![ValKind::ExternRef],
        ) == Some(ImportHandler::Undefined),
        strip_hash(name) == "__wbg_getRandomValues"@ || strip_hash(name)
            == "__wbg_randomFillSync"@ ==> import_handler(
            name,
            seq![ValKind::ExternRef, ValKind::ExternRef],
            seq![],
        ) == Some(ImportHandler::GetRandomValues),
        strip_hash(name) == "__wbg___wbindgen_is_object"@ ==> import_handler(
            name,
            seq![ValKind::ExternRef],
            seq![ValKind::I32],
        ) == Some(ImportHandler::IsObject),
        strip_hash(name) == "__wbg___wbindgen_is_string"@ ==> import_handler(
            name,
            seq![ValKind::ExternRef],
            seq![ValKind::I32],
        ) == Some(ImportHandler::IsString),
        strip_hash(name) == "__wbg___wbindgen_is_function"@ ==> import_handler(
            name,
            seq![ValKind::ExternRef],
            seq![ValKind::I32],
        ) == Some(ImportHandler::IsFunction),
        strip_hash(name) == "__wbg___wbindgen_is_undefined"@ ==> import_handler(
            name,
            seq![ValKind::ExternRef],
            seq![ValKind::I32],
        ) == Some(ImportHandler::IsUndefined),
        strip_hash(name) == "__wbg___wbindgen_throw"@ ==> import_handler(
            name,
            seq![ValKind::I32, ValKind::I32],
            seq![],
        ) == Some(ImportHandler::Throw),
        strip_hash(name) == "__wbindgen_cast"@ ==> import_handler(
            name,
            seq![ValKind::I32, ValKind::I32],
            seq![ValKind::ExternRef],
        ) == Some(ImportHandler::Cast),
        has_prefix(strip_hash(name), "__wbg_static_accessor_"@) ==> import_handler(
            name,
            seq![],
            seq![ValKind::I32],
        ) == Some(ImportHandler::StaticAccessor),
{
    reveal_strlit("__wbg_crypto");
    reveal_strlit("__wbg_process");
    reveal_strlit("__wbg_versions");
    reveal_strlit("__wbg_node");
    reveal_strlit("__wbg_msCrypto");
    reveal_strlit("__wbg___wbindgen_is_object");
    reveal_strlit("__wbg___wbindgen_is_string");
    reveal_strlit("__wbg___wbindgen_is_function");
    reveal_strlit("__wbg___wbindgen_is_undefined");
    let e = seq![ValKind::ExternRef];
    let i = seq![ValKind::I32];
    let ee = seq![ValKind::ExternRef, ValKind::ExternRef];
    let ii = seq![ValKind::I32, ValKind::I32];
    let none = Seq::<ValKind>::empty();
    assert(e.len() == 1 && i.len() == 1 && ee.len() == 2 && ii.len() == 2 && none.len() == 0);
    assert("__wbg___wbindgen_is_object"@[20] != "__wbg___wbindgen_is_string"@[20]);
    assert(e != i && e != ee && e != ii && i != ee && i != ii && ee != ii) by {
        assert(e[0] != i[0]);
        assert(ee.len() != e.len() && ii.len() != i.len() && ee[0] != ii[0]);
    }
    assert(seq![] =~= none);
}

/// Whether a list of value kinds is exactly `want`.
fn kinds_are(kinds: &Vec<ValKind>, want: &[ValKind]) -> (r: bool)
    ensures
        r == (kinds@ == want@),
{
    if kinds.len() != want.len() {
        return false;
    }
    let mut k: usize = 0;
    while k < kinds.len()
        invariant
            kinds@.len() == want@.len(),
            k <= kinds@.len(),
            forall|m: int| 0 <= m < k ==> kinds@[m] == want@[m],
        decreases kinds@.len() - k,
    {
        if kinds[k] != want[k] {
            return false;
        }
        k = k + 1;
    }
    assert(kinds@ =~= want@);
    true
}

/// Picks the host function for one import of the engine, identifying it by
/// its name with the wasm-bindgen hash stripped and by its signature, so
/// that it adapts to whatever hash suffixes the build used. `None` means the
/// import is left to trap.
pub fn classify_import(name: &str, params: &Vec<ValKind>, results: &Vec<ValKind>) -> (h: Option<
    ImportHandler,
>)
    ensures
        h == import_handler(name@, params@, results@),
{
    let b = chars_of(strip_bindgen_hash(name));
    let none: [ValKind; 0] = [];
    let e = [ValKind::ExternRef];
    let i = [ValKind::I32];
    let ee = [ValKind::ExternRef, ValKind::ExternRef];
    let ii = [ValKind::I32, ValKind::I32];
    proof {
        assert(none@ =~= Seq::<ValKind>::empty());
        assert(e@ =~= seq![ValKind::ExternRef]);
        assert(i@ =~= seq![ValKind::I32]);
        assert(ee@ =~= seq![ValKind::ExternRef, ValKind::ExternRef]);
        assert(ii@ =~= seq![ValKind::I32, ValKind::I32]);
    }
    if chars_eq(&b, "__wbindgen_init_externref_table") && kinds_are(params, &none) && kinds_are(
        results,
        &none,
    ) {
        Some(ImportHandler::InitExternrefTable)
    } else if (chars_eq(&b, "__wbg_log") || chars_eq(&b, "__wbg_warn")) && kinds_are(params, &e)
        && kinds_are(results, &none) {
        Some(ImportHandler::Log)
    } else if chars_eq(&b, "__wbg_crypto") && kinds_are(params, &e) && kinds_are(results, &e) {
        Some(ImportHandler::Crypto)
    } else if (chars_eq(&b, "__wbg_process") || chars_eq(&b, "__wbg_versions") || chars_eq(
        &b,
        "__wbg_node",
    ) || chars_eq(&b, "__wbg_msCrypto")) && kinds_are(params, &e) && kinds_are(results, &e) {
        Some(ImportHandler::Undefined)
    } else if (chars_eq(&b, "__wbg_getRandomValues") || chars_eq(&b, "__wbg_randomFillSync"))
        && kinds_are(params, &ee) && kinds_are(results, &none) {
        Some(ImportHandler::GetRandomValues)
    } else if chars_eq(&b, "__wbg___wbindgen_is_object") && kinds_are(params, &e) && kinds_are(
        results,
        &i,
    ) {
        Some(ImportHandler::IsObject)
    } else if chars_eq(&b, "__wbg___wbindgen_is_string") && kinds_are(params, &e) && kinds_are(
        results,
        &i,
    ) {
        Some(ImportHandler::IsString)
    } else if chars_eq(&b, "__wbg___wbindgen_is_function") && kinds_are(params, &e) && kinds_are(
        results,
        &i,
    ) {
        Some(ImportHandler::IsFunction)
    } else if chars_eq(&b, "__wbg___wbindgen_is_undefined") && kinds_are(params, &e) && kinds_are(
        results,
        &i,
    ) {
        Some(ImportHandler::IsUndefined)
    } else if chars_eq(&b, "__wbg___wbindgen_throw") && kinds_are(params, &ii) && kinds_are(
        results,
        &none,
    ) {
        Some(ImportHandler::Throw)
    } else if chars_eq(&b, "__wbindgen_cast") && kinds_are(params, &ii) && kinds_are(results, &e) {
        Some(ImportHandler::Cast)
    } else if chars_start_with(&b, "__wbg_static_accessor_") && kinds_are(params, &none)
        && kinds_are(results, &i) {
        Some(ImportHandler::StaticAccessor)
    } else {
        None
    }
}

} // verus!
