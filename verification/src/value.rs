use crate::codec::{DecodeLength, EncodeAppend, StorageCodec};
use crate::fault::StorageFault;
use crate::hashing::{twox_128, twox_128_of};
use crate::store::RawStore;
use vstd::prelude::*;

verus! {

/// The view of an optionally present value.
pub open spec fn opt_view<T: View>(v: Option<T>) -> Option<T::V> {
    match v {
        Some(x) => Some(x@),
        None => None,
    }
}

/// The mathematical face of a storage slot: its identifier and the two
/// directions of its query convention, at the view level.  The accessor
/// trait builds on it; its contracts are stated through the spec functions
/// below.
pub trait StorageSpec<T: StorageCodec> {
    /// The type reads return and mutation closures receive.
    type Query: View;

    /// The slot's static identifier bytes.
    spec fn spec_unhashed_key() -> Seq<u8>;

    /// The query view standing for an optionally present value.
    spec fn spec_query_of(v: Option<T::V>) -> <Self::Query as View>::V;

    /// The optional value a query view writes back as; `None` deletes.
    spec fn spec_value_of(q: <Self::Query as View>::V) -> Option<T::V>;
}

/// Whether an optionally stored value can be encoded: an absent value
/// needs no encoding.
pub open spec fn opt_encodable<T: StorageCodec>(ov: Option<T::V>) -> bool {
    match ov {
        Some(v) => T::encodable(v),
        None => true,
    }
}

/// The physical key of slot `G`: the 128-bit Twox hash of its identifier,
/// used verbatim as the lookup key in the raw store.
pub open spec fn slot_key<T: StorageCodec, G: StorageSpec<T>>() -> Seq<u8> {
    twox_128_of(G::spec_unhashed_key())
}

/// Whether the slot is absent or holds bytes the codec accepts; a read
/// faults exactly when this fails.
pub open spec fn readable<T: StorageCodec, G: StorageSpec<T>>(m: Map<Seq<u8>, Seq<u8>>) -> bool {
    ||| !m.contains_key(slot_key::<T, G>())
    ||| T::spec_decode(m[slot_key::<T, G>()]) is Some
}

/// Whether `q` is the query view a read of the slot must yield: the
/// adapter's image of `None` when the slot is absent, and of `Some` of the
/// decoded value when the stored bytes decode.  Present bytes the codec
/// rejects admit no read at all: the fault must surface.
pub open spec fn read_view<T: StorageCodec, G: StorageSpec<T>>(
    m: Map<Seq<u8>, Seq<u8>>,
    q: <G::Query as View>::V,
) -> bool {
    if !m.contains_key(slot_key::<T, G>()) {
        q == G::spec_query_of(None)
    } else {
        match T::spec_decode(m[slot_key::<T, G>()]) {
            Some(s) => q == G::spec_query_of(Some(s)),
            None => false,
        }
    }
}

/// The store after writing the query view `q` back: a `Some` value is
/// stored encoded, a `None` deletes the slot.
pub open spec fn write_view<T: StorageCodec, G: StorageSpec<T>>(
    m: Map<Seq<u8>, Seq<u8>>,
    q: <G::Query as View>::V,
) -> Map<Seq<u8>, Seq<u8>> {
    match G::spec_value_of(q) {
        Some(v) => m.insert(slot_key::<T, G>(), T::spec_encode(v)),
        None => m.remove(slot_key::<T, G>()),
    }
}

/// The store after a kill of the slot.
pub open spec fn kill_post<T: StorageCodec, G: StorageSpec<T>>(
    m: Map<Seq<u8>, Seq<u8>>,
) -> Map<Seq<u8>, Seq<u8>> {
    m.remove(slot_key::<T, G>())
}

/// The default the adapter assigns an absent slot, on the write side: the
/// absent case pushed through both conversions.
pub open spec fn default_value<T: StorageCodec, G: StorageSpec<T>>() -> Option<T::V> {
    G::spec_value_of(G::spec_query_of(None))
}

/// The encoded buffer an absent slot stands for when appending: the
/// default's encoding, or the empty buffer when the default is itself
/// absent.
pub open spec fn default_bytes<T: StorageCodec, G: StorageSpec<T>>() -> Seq<u8> {
    match default_value::<T, G>() {
        Some(v) => T::spec_encode(v),
        None => Seq::empty(),
    }
}

/// The buffer an append starts from: the stored bytes, or the default's.
pub open spec fn append_base<T: StorageCodec, G: StorageSpec<T>>(
    m: Map<Seq<u8>, Seq<u8>>,
) -> Seq<u8> {
    if m.contains_key(slot_key::<T, G>()) {
        m[slot_key::<T, G>()]
    } else {
        default_bytes::<T, G>()
    }
}

/// The default value with `items` appended; built from `items` alone when
/// the default is absent.
pub open spec fn default_appended<T: EncodeAppend, G: StorageSpec<T>>(
    items: Seq<T::Item>,
) -> T::V {
    match default_value::<T, G>() {
        Some(d) => T::appended(d, items),
        None => T::from_items(items),
    }
}

/// What a successful `mutate` leaves behind: some query the read admitted
/// was handed to `f`, `f`'s output query was written back through the
/// write-side convention, and `f`'s other output came back to the caller.
pub open spec fn mutate_post<
    T: StorageCodec,
    G: StorageSpec<T>,
    R,
    F: FnOnce(G::Query) -> (G::Query, R),
>(m0: Map<Seq<u8>, Seq<u8>>, m1: Map<Seq<u8>, Seq<u8>>, f: F, rv: R) -> bool {
    exists|q: G::Query, out: G::Query|
        {
            &&& read_view::<T, G>(m0, q@)
            &&& #[trigger] call_ensures(f, (q,), (out, rv))
            &&& m1 == write_view::<T, G>(m0, out@)
        }
}

/// A storage slot: a static identifier naming it, the stored type `T`, and
/// the query convention its callers see.
///
/// Implementors supply the identifier and the two query conversions; every
/// accessor operation is provided on top of them, generic over the raw
/// store it runs against.
pub trait StorageValue<T: StorageCodec>: StorageSpec<T> + Sized {
    /// The identifier bytes, as key derivation consumes them.
    fn unhashed_key() -> (k: Vec<u8>)
        ensures
            k@ == Self::spec_unhashed_key(),
    ;

    /// Turn an optionally present value into the query callers see.
    fn from_optional_value_to_query(v: Option<T>) -> (q: Self::Query)
        ensures
            q@ == Self::spec_query_of(opt_view(v)),
    ;

    /// Turn a query into the optionally stored value: `None` means delete.
    fn from_query_to_optional_value(q: Self::Query) -> (r: Option<T>)
        ensures
            opt_view(r) == Self::spec_value_of(q@),
    ;

    /// The full physical key, derived fresh on every call.
    fn storage_value_final_key() -> (k: [u8; 16])
        ensures
            k@ == slot_key::<T, Self>(),
    {
        let id = Self::unhashed_key();
        twox_128(id.as_slice())
    }

    /// The physical key the accessor uses.
    fn hashed_key() -> (k: [u8; 16])
        ensures
            k@ == slot_key::<T, Self>(),
    {
        Self::storage_value_final_key()
    }

    /// Whether the raw store holds an entry for this slot.
    fn exists_in<S: RawStore>(store: &S) -> (r: bool)
        requires
            store.inv(),
        ensures
            r == store.contents().contains_key(slot_key::<T, Self>()),
    {
        let key = Self::storage_value_final_key();
        store.contains(key.as_slice())
    }

    /// Read the slot: an absent entry becomes the adapter's image of
    /// `None`, present bytes are decoded, and a decode fault is surfaced
    /// rather than swallowed.
    fn get<S: RawStore>(store: &S) -> (r: Result<Self::Query, StorageFault>)
        requires
            store.inv(),
        ensures
            match r {
                Ok(q) => read_view::<T, Self>(store.contents(), q@),
                Err(e) => !readable::<T, Self>(store.contents()) && e == StorageFault::DecodeFault,
            },
    {
        let key = Self::storage_value_final_key();
        match store.get_raw(key.as_slice()) {
            None => Ok(Self::from_optional_value_to_query(None)),
            Some(bytes) => match T::decode(bytes.as_slice()) {
                Ok(v) => Ok(Self::from_optional_value_to_query(Some(v))),
                Err(e) => Err(e),
            },
        }
    }

    /// Encode `val` and store it under the slot's key, unconditionally
    /// replacing any existing entry.  The value must be within the codec's
    /// cap (for a collection, its item count): the codec refuses anything
    /// beyond it.
    fn put<S: RawStore>(store: &mut S, val: &T)
        requires
            old(store).inv(),
            T::encodable(val@),
        ensures
            final(store).inv(),
            final(store).contents() == old(store).contents().insert(
                slot_key::<T, Self>(),
                T::spec_encode(val@),
            ),
            T::spec_decode(T::spec_encode(val@)) == Some(val@),
    {
        let key = Self::storage_value_final_key();
        let bytes = val.encode();
        store.put_raw(key.as_slice(), bytes.as_slice());
    }

    /// Store through a reference: the observable effect of `put`.
    fn put_ref<S: RawStore>(store: &mut S, val: &T)
        requires
            old(store).inv(),
            T::encodable(val@),
        ensures
            final(store).inv(),
            final(store).contents() == old(store).contents().insert(
                slot_key::<T, Self>(),
                T::spec_encode(val@),
            ),
            T::spec_decode(T::spec_encode(val@)) == Some(val@),
    {
        Self::put(store, val)
    }

    /// Delete the slot's entry; deleting an absent slot is a no-op.
    fn kill<S: RawStore>(store: &mut S)
        requires
            old(store).inv(),
        ensures
            final(store).inv(),
            final(store).contents() == kill_post::<T, Self>(old(store).contents()),
    {
        let key = Self::storage_value_final_key();
        store.kill(key.as_slice());
    }

    /// Read the slot and, when an entry was present, delete it in the same
    /// logical step.  A successful call observes what `get` observes and
    /// leaves what `kill` leaves; the one divergence from `get` then `kill`
    /// is a decode fault, which leaves the entry in place.
    fn take<S: RawStore>(store: &mut S) -> (r: Result<Self::Query, StorageFault>)
        requires
            old(store).inv(),
        ensures
            final(store).inv(),
            match r {
                Ok(q) => read_view::<T, Self>(old(store).contents(), q@) && final(store).contents()
                    == kill_post::<T, Self>(old(store).contents()),
                Err(e) => {
                    &&& !readable::<T, Self>(old(store).contents())
                    &&& e == StorageFault::DecodeFault
                    &&& final(store).contents() == old(store).contents()
                },
            },
    {
        let key = Self::storage_value_final_key();
        match store.get_raw(key.as_slice()) {
            None => {
                proof {
                    assert(kill_post::<T, Self>(store.contents()) =~= store.contents());
                }
                Ok(Self::from_optional_value_to_query(None))
            },
            Some(bytes) => match T::decode(bytes.as_slice()) {
                Ok(v) => {
                    store.kill(key.as_slice());
                    Ok(Self::from_optional_value_to_query(Some(v)))
                },
                Err(e) => Err(e),
            },
        }
    }

    /// Read the query, hand it to `f`, and write `f`'s result back: one
    /// logical read, then exactly one logical write — a store of the `Some`
    /// case or a delete for `None`.  Returns what `f` returns beside the
    /// new query.
    fn mutate<S: RawStore, R, F: FnOnce(Self::Query) -> (Self::Query, R)>(
        store: &mut S,
        f: F,
    ) -> (r: Result<R, StorageFault>)
        requires
            old(store).inv(),
            forall|q: Self::Query|
                read_view::<T, Self>(old(store).contents(), q@) ==> call_requires(f, (q,)),
            forall|q: Self::Query, out: Self::Query, rv: R|
                #[trigger] call_ensures(f, (q,), (out, rv)) ==> opt_encodable::<T>(
                    Self::spec_value_of(out@),
                ),
        ensures
            final(store).inv(),
            r matches Ok(rv) ==> mutate_post::<T, Self, R, F>(
                old(store).contents(),
                final(store).contents(),
                f,
                rv,
            ),
            r matches Err(e) ==> {
                &&& !readable::<T, Self>(old(store).contents())
                &&& e == StorageFault::DecodeFault
                &&& final(store).contents() == old(store).contents()
            },
    {
        let q = match Self::get(store) {
            Ok(q) => q,
            Err(e) => {
                return Err(e);
            },
        };
        let ghost gq = q;
        let ghost gf = f;
        let (out, rv) = f(q);
        let ghost gout = out;
        match Self::from_query_to_optional_value(out) {
            Some(v) => Self::put(store, &v),
            None => Self::kill(store),
        }
        proof {
            assert(read_view::<T, Self>(old(store).contents(), gq@));
            assert(call_ensures(gf, (gq,), (gout, rv)));
            assert(store.contents() == write_view::<T, Self>(old(store).contents(), gout@));
            assert(mutate_post::<T, Self, R, F>(
                old(store).contents(),
                store.contents(),
                gf,
                rv,
            ));
        }
        Ok(rv)
    }

    /// Append `items` to the stored collection without decoding it.  An
    /// absent slot starts from the default's encoding — the same default
    /// `get` reports — so appending to an absent slot leaves exactly the
    /// state that materializing the default, appending, and `put`ting it
    /// would.  When the splice is refused, no write occurs.
    fn append<S: RawStore>(store: &mut S, items: &[T::Item]) -> (r: Result<(), StorageFault>) where
        T: EncodeAppend

        requires
            old(store).inv(),
            !old(store).contents().contains_key(slot_key::<T, Self>()) ==> opt_encodable::<T>(
                default_value::<T, Self>(),
            ),
        ensures
            final(store).inv(),
            ({
                let m0 = old(store).contents();
                let key = slot_key::<T, Self>();
                let base = append_base::<T, Self>(m0);
                match r {
                    Ok(()) => {
                        &&& T::spec_splice(base, items@) matches Some(out) && final(store).contents()
                            == m0.insert(key, out)
                        &&& base.len() == 0 ==> final(store).contents() == m0.insert(
                            key,
                            T::spec_encode(T::from_items(items@)),
                        ) && T::spec_decode(T::spec_encode(T::from_items(items@))) == Some(
                            T::from_items(items@),
                        )
                        &&& forall|s: T::V|
                            (#[trigger] T::spec_encode(s)) == base && items@.len()
                                <= u32::MAX ==> final(store).contents() == m0.insert(
                                key,
                                T::spec_encode(T::appended(s, items@)),
                            ) && T::spec_decode(T::spec_encode(T::appended(s, items@))) == Some(
                                T::appended(s, items@),
                            )
                        &&& !m0.contains_key(key) && items@.len() <= u32::MAX ==> final(store).contents()
                            == m0.insert(key, T::spec_encode(default_appended::<T, Self>(items@)))
                            && T::spec_decode(T::spec_encode(default_appended::<T, Self>(items@)))
                            == Some(default_appended::<T, Self>(items@))
                    },
                    Err(e) => {
                        &&& e == StorageFault::AppendSpliceFault
                        &&& T::spec_splice(base, items@) is None
                        &&& final(store).contents() == m0
                    },
                }
            }),
            ({
                let base = append_base::<T, Self>(old(store).contents());
                &&& base.len() == 0 && items@.len() <= u32::MAX ==> r is Ok
                &&& (exists|s: T::V|
                    (#[trigger] T::spec_encode(s)) == base && T::item_count(s) + items@.len()
                        <= u32::MAX) ==> r is Ok
            }),
    {
        let key = Self::storage_value_final_key();
        let existing: Vec<u8> = match store.get_raw(key.as_slice()) {
            Some(b) => b,
            None => match Self::from_query_to_optional_value(
                Self::from_optional_value_to_query(None),
            ) {
                Some(value) => value.encode(),
                None => Vec::new(),
            },
        };
        match T::append_encoded(existing, items) {
            Ok(new_val) => {
                store.put_raw(key.as_slice(), new_val.as_slice());
                Ok(())
            },
            Err(e) => Err(e),
        }
    }

    /// Append, and when the splice is refused — the stored bytes are
    /// corrupt — overwrite the slot with the collection built from `items`
    /// alone.  Never faults: unreadable prior data is sacrificed to restore
    /// a usable value.
    fn append_or_put<S: RawStore>(store: &mut S, items: &[T::Item]) where T: EncodeAppend
        requires
            old(store).inv(),
            !old(store).contents().contains_key(slot_key::<T, Self>()) ==> opt_encodable::<T>(
                default_value::<T, Self>(),
            ),
            T::encodable(T::from_items(items@)),
        ensures
            final(store).inv(),
            ({
                let m0 = old(store).contents();
                let key = slot_key::<T, Self>();
                match T::spec_splice(append_base::<T, Self>(m0), items@) {
                    Some(out) => final(store).contents() == m0.insert(key, out),
                    None => final(store).contents() == m0.insert(
                        key,
                        T::spec_encode(T::from_items(items@)),
                    ) && T::spec_decode(T::spec_encode(T::from_items(items@))) == Some(
                        T::from_items(items@),
                    ),
                }
            }),
    {
        match Self::append(store, items) {
            Ok(()) => (),
            Err(_) => {
                let fresh = T::collect_items(items);
                Self::put(store, &fresh);
            },
        }
    }

    /// The stored item count, read off the encoding without a full decode;
    /// an absent slot reports the default's length.  A `0` is therefore no
    /// proof of absence: `exists_in` is the existence check.
    fn decode_len<S: RawStore>(store: &S) -> (r: Result<usize, StorageFault>) where
        T: DecodeLength

        requires
            store.inv(),
        ensures
            ({
                let m = store.contents();
                let key = slot_key::<T, Self>();
                if m.contains_key(key) {
                    match r {
                        Ok(n) => T::spec_decode_len(m[key]) == Some(n as nat) && (forall|s: T::V|
                            m[key] == (#[trigger] T::spec_encode(s)) ==> n == T::item_len(s)),
                        Err(e) => (T::spec_decode_len(m[key]) matches Some(c) ==> c > usize::MAX)
                            && e == StorageFault::DecodeFault,
                    }
                } else {
                    r matches Ok(n) && n == (match default_value::<T, Self>() {
                        Some(d) => T::item_len(d) as int,
                        None => 0int,
                    })
                }
            }),
            store.contents().contains_key(slot_key::<T, Self>()) && (exists|s: T::V|
                store.contents()[slot_key::<T, Self>()] == (#[trigger] T::spec_encode(s))
                    && T::item_len(s) <= usize::MAX) ==> r is Ok,
    {
        let key = Self::storage_value_final_key();
        match store.get_raw(key.as_slice()) {
            Some(bytes) => T::decode_len_raw(bytes.as_slice()),
            None => match Self::from_query_to_optional_value(
                Self::from_optional_value_to_query(None),
            ) {
                Some(v) => Ok(v.len()),
                None => Ok(0),
            },
        }
    }
}

/// Key derivation is deterministic and identifier-driven: slots with the
/// same identifier bytes derive the same physical key, whatever their value
/// or query types, on every call.
pub proof fn lemma_key_deterministic<
    T1: StorageCodec,
    G1: StorageSpec<T1>,
    T2: StorageCodec,
    G2: StorageSpec<T2>,
>()
    requires
        G1::spec_unhashed_key() == G2::spec_unhashed_key(),
    ensures
        slot_key::<T1, G1>() == slot_key::<T2, G2>(),
{
}

/// After a put of `v`, the slot exists and any read the contract admits
/// yields the adapter's image of `Some(v)`.  The round-trip premise is what
/// `put`'s own contract supplies.
pub proof fn lemma_put_then_get<T: StorageCodec, G: StorageSpec<T>>(
    m: Map<Seq<u8>, Seq<u8>>,
    v: T::V,
    q: <G::Query as View>::V,
)
    requires
        T::spec_decode(T::spec_encode(v)) == Some(v),
        read_view::<T, G>(m.insert(slot_key::<T, G>(), T::spec_encode(v)), q),
    ensures
        q == G::spec_query_of(Some(v)),
        m.insert(slot_key::<T, G>(), T::spec_encode(v)).contains_key(slot_key::<T, G>()),
{
    let m1 = m.insert(slot_key::<T, G>(), T::spec_encode(v));
    assert(m1[slot_key::<T, G>()] == T::spec_encode(v));
}

/// Appending to an absent slot agrees with materializing the default,
/// appending the items, and storing the result: `append`'s contract leaves
/// the very bytes that `put` of the default-with-items-appended leaves, and
/// a read of that state yields that value.  The round-trip premise is what
/// `append`'s own contract supplies on that path.
pub proof fn lemma_append_absent_like_default_then_put<T: EncodeAppend, G: StorageSpec<T>>(
    m: Map<Seq<u8>, Seq<u8>>,
    items: Seq<T::Item>,
    q: <G::Query as View>::V,
)
    requires
        !m.contains_key(slot_key::<T, G>()),
        T::spec_decode(T::spec_encode(default_appended::<T, G>(items))) == Some(
            default_appended::<T, G>(items),
        ),
        read_view::<T, G>(
            m.insert(slot_key::<T, G>(), T::spec_encode(default_appended::<T, G>(items))),
            q,
        ),
    ensures
        q == G::spec_query_of(Some(default_appended::<T, G>(items))),
{
    lemma_put_then_get::<T, G>(m, default_appended::<T, G>(items), q);
}

/// On a readable store the read is determined: any two query views the
/// read contract admits are equal.  With this, `take`'s observation
/// coincides with `get`'s on every store where neither faults, and its
/// post-state is `kill`'s by construction.
pub proof fn lemma_read_deterministic<T: StorageCodec, G: StorageSpec<T>>(
    m: Map<Seq<u8>, Seq<u8>>,
    q1: <G::Query as View>::V,
    q2: <G::Query as View>::V,
)
    requires
        readable::<T, G>(m),
        read_view::<T, G>(m, q1),
        read_view::<T, G>(m, q2),
    ensures
        q1 == q2,
{
    if m.contains_key(slot_key::<T, G>()) {
        let s = T::spec_decode(m[slot_key::<T, G>()])->0;
        assert(q1 == G::spec_query_of(Some(s)));
        assert(q2 == G::spec_query_of(Some(s)));
    }
}

/// After a kill, the slot is absent and any read yields the adapter's image
/// of `None`; killing again leaves the same state, so a kill of an absent
/// slot preserves the invariant.
pub proof fn lemma_kill_then_get<T: StorageCodec, G: StorageSpec<T>>(
    m: Map<Seq<u8>, Seq<u8>>,
    q: <G::Query as View>::V,
)
    requires
        read_view::<T, G>(kill_post::<T, G>(m), q),
    ensures
        q == G::spec_query_of(None),
        !kill_post::<T, G>(m).contains_key(slot_key::<T, G>()),
        kill_post::<T, G>(kill_post::<T, G>(m)) == kill_post::<T, G>(m),
{
    assert(kill_post::<T, G>(kill_post::<T, G>(m)) =~= kill_post::<T, G>(m));
}

} // verus!
