//! Type erasure: handles that own one value of a type that is only known when
//! the program runs, and the two traits by which a container lifts a value
//! into a handle and casts a handle back to the value's type.
//!
//! There are three handles, which differ in what they ask of the value: none
//! asks for more than a static type, one asks that the value can be sent to
//! another thread, one that it can also be shared between threads. Verus does
//! not read a handle; the identity of the type that it holds is named, and
//! each call into `std::any::Any` stands behind a function whose contract is
//! taken on trust from the standard library's documentation.

use crate::key::identifies;
use std::any::Any;
use std::any::TypeId;
use vstd::prelude::*;

verus! {

/// An erased handle: what it tells of the value that it holds, and the casts
/// that leave the value as it is.
///
/// It is implemented for the three handles of this module; a handle of
/// another kind can implement it too, to be stored in a set.
pub trait Erased: Sized + 'static {
    /// The identity of the type of the value that the handle holds.
    spec fn identity(&self) -> TypeId;

    /// The identity of the type of the value that the handle holds.
    fn type_id(&self) -> (r: TypeId)
        ensures
            r == self.identity(),
    ;

    /// The value, if it is of the type `T`, and nothing otherwise.
    fn downcast_ref<T: 'static>(&self) -> (r: Option<&T>)
        ensures
            forall|id: TypeId| identifies::<T>(id) ==> (r is Some <==> self.identity() == id),
    ;

    /// The value itself, if it is of the type `T`; otherwise the handle as it
    /// was, so that nothing is lost.
    fn downcast_box<T: 'static>(boxed: Self) -> (r: Result<Box<T>, Self>)
        ensures
            forall|id: TypeId| identifies::<T>(id) ==> (r is Ok <==> boxed.identity() == id),
            match r {
                Ok(_) => true,
                Err(back) => back == boxed,
            },
    ;
}

/// The casts of a handle back to the type of the value that it holds: those
/// of [`Erased`], and the cast that lends the value out to be changed.
///
/// It is implemented for the three handles of this module; a handle of
/// another kind can implement it too, to be stored in a set.
pub trait Downcast: Erased {
    /// The value, to be changed in place, if it is of the type `T`, and
    /// nothing otherwise. What is lent is a value that the cast by
    /// reference can give; when the loan ends, the handle holds what was
    /// left there, of the same type.
    fn downcast_mut<T: 'static>(&mut self) -> (r: Option<&mut T>)
        ensures
            final(self).identity() == old(self).identity(),
            forall|id: TypeId|
                identifies::<T>(id) ==> (r is Some <==> old(self).identity() == id),
            r is None ==> *final(self) == *old(self),
            r is Some ==> Self::downcast_ref::<T>.ensures((&*old(self),), Some(&*r->Some_0)),
            forall|out: Option<&T>| #[trigger]
                Self::downcast_ref::<T>.ensures((&*final(self),), out) ==> (r is Some
                    && out is Some ==> *out->Some_0 == *final(r->Some_0)),
            forall|out: Result<Box<T>, Self>| #[trigger]
                Self::downcast_box::<T>.ensures((*final(self),), out) ==> (r is Some && out is Ok
                    ==> *out->Ok_0 == *final(r->Some_0)),
    ;
}

/// The lift of a value into a handle of the kind `A`.
///
/// It is implemented for every type that meets what the handle asks of its
/// value.
pub trait IntoBox<A: Downcast>: 'static {
    /// A handle that owns `self`: it holds a value of the type of `self`,
    /// and a cast to that type gives `self` back.
    fn into_box(self) -> (r: A)
        ensures
            forall|id: TypeId| identifies::<Self>(id) ==> r.identity() == id,
            forall|out: Option<&Self>| #[trigger]
                A::downcast_ref::<Self>.ensures((&r,), out) ==> (out is Some ==> *out->Some_0
                    == self),
            forall|out: Result<Box<Self>, A>| #[trigger]
                A::downcast_box::<Self>.ensures((r,), out) ==> (out is Ok ==> *out->Ok_0 == self),
    ;
}

/// A handle that owns one value of any static type, which stays on the thread that made it.
#[verifier::external_body]
pub struct LocalAny {
    inner: Box<dyn Any>,
}

/// The identity of the type of the value that a handle holds.
pub uninterp spec fn local_identity(handle: LocalAny) -> TypeId;

/// `Any::type_id`, on the value in the handle: the identity of its type.
#[verifier::external_body]
fn local_type_id(handle: &LocalAny) -> (r: TypeId)
    ensures
        r == local_identity(*handle),
{
    (*handle.inner).type_id()
}

/// `downcast_ref`, on the value in the handle: the value exactly when the
/// identity of its type is the one that `TypeId::of` gives for `T`.
#[verifier::external_body]
fn local_downcast_ref<'a, T: 'static>(handle: &'a LocalAny) -> (r: Option<&'a T>)
    ensures
        forall|id: TypeId| identifies::<T>(id) ==> (r is Some <==> local_identity(*handle) == id),
{
    handle.inner.downcast_ref::<T>()
}

/// `downcast_mut`, on the value in the handle: the value exactly when the
/// identity of its type is the one that `TypeId::of` gives for `T`, and then
/// a value that `downcast_ref` can give. When the loan ends the handle
/// holds what was left behind the reference, of the same type: a cast of it
/// to `T`, by reference or by value, gives that. A failed cast leaves the
/// handle as it was.
#[verifier::external_body]
fn local_downcast_mut<'a, T: 'static>(handle: &'a mut LocalAny) -> (r: Option<&'a mut T>)
    ensures
        local_identity(*final(handle)) == local_identity(*old(handle)),
        forall|id: TypeId|
            identifies::<T>(id) ==> (r is Some <==> local_identity(*old(handle)) == id),
        r is None ==> *final(handle) == *old(handle),
        r is Some ==> <LocalAny as Erased>::downcast_ref::<T>.ensures((&*old(handle),), Some(&*r->Some_0)),
        forall|out: Option<&T>| #[trigger]
            <LocalAny as Erased>::downcast_ref::<T>.ensures((&*final(handle),), out) ==> (r is Some
                && out is Some ==> *out->Some_0 == *final(r->Some_0)),
        forall|out: Result<Box<T>, LocalAny>| #[trigger]
            <LocalAny as Erased>::downcast_box::<T>.ensures((*final(handle),), out) ==> (r is Some && out is Ok
                ==> *out->Ok_0 == *final(r->Some_0)),
{
    handle.inner.downcast_mut::<T>()
}

/// `Box::downcast`: the value exactly when the identity of its type is the
/// one that `TypeId::of` gives for `T`, otherwise the box that was handed in.
#[verifier::external_body]
fn local_downcast_box<T: 'static>(handle: LocalAny) -> (r: Result<Box<T>, LocalAny>)
    ensures
        forall|id: TypeId| identifies::<T>(id) ==> (r is Ok <==> local_identity(handle) == id),
        match r {
            Ok(_) => true,
            Err(back) => back == handle,
        },
{
    match handle.inner.downcast::<T>() {
        Ok(value) => Ok(value),
        Err(inner) => Err(LocalAny { inner }),
    }
}

/// `Box::new`, erased: a handle that owns `value`. The identity of the type
/// of what it holds is the one that `TypeId::of` gives for `T`, and a cast of
/// the handle to `T`, by reference or by value, gives `value`.
#[verifier::external_body]
fn local_lift<T: 'static>(value: T) -> (r: LocalAny)
    ensures
        forall|id: TypeId| identifies::<T>(id) ==> local_identity(r) == id,
        forall|out: Option<&T>| #[trigger]
            <LocalAny as Erased>::downcast_ref::<T>.ensures((&r,), out) ==> (out is Some ==> *out->Some_0 == value),
        forall|out: Result<Box<T>, LocalAny>| #[trigger]
            <LocalAny as Erased>::downcast_box::<T>.ensures((r,), out) ==> (out is Ok ==> *out->Ok_0 == value),
{
    LocalAny { inner: Box::new(value) }
}

impl Erased for LocalAny {
    open spec fn identity(&self) -> TypeId {
        local_identity(*self)
    }

    fn type_id(&self) -> (r: TypeId) {
        local_type_id(self)
    }

    fn downcast_ref<T: 'static>(&self) -> (r: Option<&T>) {
        local_downcast_ref::<T>(self)
    }

    fn downcast_box<T: 'static>(boxed: Self) -> (r: Result<Box<T>, Self>) {
        local_downcast_box::<T>(boxed)
    }
}

impl Downcast for LocalAny {
    fn downcast_mut<T: 'static>(&mut self) -> (r: Option<&mut T>) {
        local_downcast_mut::<T>(self)
    }
}

impl<T: 'static> IntoBox<LocalAny> for T {
    fn into_box(self) -> (r: LocalAny) {
        local_lift(self)
    }
}

/// A handle that owns one value of any static type that can be sent to another thread.
#[verifier::external_body]
pub struct SendAny {
    inner: Box<dyn Any + Send>,
}

/// The identity of the type of the value that a handle holds.
pub uninterp spec fn send_identity(handle: SendAny) -> TypeId;

/// `Any::type_id`, on the value in the handle: the identity of its type.
#[verifier::external_body]
fn send_type_id(handle: &SendAny) -> (r: TypeId)
    ensures
        r == send_identity(*handle),
{
    (*handle.inner).type_id()
}

/// `downcast_ref`, on the value in the handle: the value exactly when the
/// identity of its type is the one that `TypeId::of` gives for `T`.
#[verifier::external_body]
fn send_downcast_ref<'a, T: 'static>(handle: &'a SendAny) -> (r: Option<&'a T>)
    ensures
        forall|id: TypeId| identifies::<T>(id) ==> (r is Some <==> send_identity(*handle) == id),
{
    handle.inner.downcast_ref::<T>()
}

/// `downcast_mut`, on the value in the handle: the value exactly when the
/// identity of its type is the one that `TypeId::of` gives for `T`, and then
/// a value that `downcast_ref` can give. When the loan ends the handle
/// holds what was left behind the reference, of the same type: a cast of it
/// to `T`, by reference or by value, gives that. A failed cast leaves the
/// handle as it was.
#[verifier::external_body]
fn send_downcast_mut<'a, T: 'static>(handle: &'a mut SendAny) -> (r: Option<&'a mut T>)
    ensures
        send_identity(*final(handle)) == send_identity(*old(handle)),
        forall|id: TypeId|
            identifies::<T>(id) ==> (r is Some <==> send_identity(*old(handle)) == id),
        r is None ==> *final(handle) == *old(handle),
        r is Some ==> <SendAny as Erased>::downcast_ref::<T>.ensures((&*old(handle),), Some(&*r->Some_0)),
        forall|out: Option<&T>| #[trigger]
            <SendAny as Erased>::downcast_ref::<T>.ensures((&*final(handle),), out) ==> (r is Some
                && out is Some ==> *out->Some_0 == *final(r->Some_0)),
        forall|out: Result<Box<T>, SendAny>| #[trigger]
            <SendAny as Erased>::downcast_box::<T>.ensures((*final(handle),), out) ==> (r is Some && out is Ok
                ==> *out->Ok_0 == *final(r->Some_0)),
{
    handle.inner.downcast_mut::<T>()
}

/// `Box::downcast`: the value exactly when the identity of its type is the
/// one that `TypeId::of` gives for `T`, otherwise the box that was handed in.
#[verifier::external_body]
fn send_downcast_box<T: 'static>(handle: SendAny) -> (r: Result<Box<T>, SendAny>)
    ensures
        forall|id: TypeId| identifies::<T>(id) ==> (r is Ok <==> send_identity(handle) == id),
        match r {
            Ok(_) => true,
            Err(back) => back == handle,
        },
{
    match handle.inner.downcast::<T>() {
        Ok(value) => Ok(value),
        Err(inner) => Err(SendAny { inner }),
    }
}

/// `Box::new`, erased: a handle that owns `value`. The identity of the type
/// of what it holds is the one that `TypeId::of` gives for `T`, and a cast of
/// the handle to `T`, by reference or by value, gives `value`.
#[verifier::external_body]
fn send_lift<T: Send + 'static>(value: T) -> (r: SendAny)
    ensures
        forall|id: TypeId| identifies::<T>(id) ==> send_identity(r) == id,
        forall|out: Option<&T>| #[trigger]
            <SendAny as Erased>::downcast_ref::<T>.ensures((&r,), out) ==> (out is Some ==> *out->Some_0 == value),
        forall|out: Result<Box<T>, SendAny>| #[trigger]
            <SendAny as Erased>::downcast_box::<T>.ensures((r,), out) ==> (out is Ok ==> *out->Ok_0 == value),
{
    SendAny { inner: Box::new(value) }
}

impl Erased for SendAny {
    open spec fn identity(&self) -> TypeId {
        send_identity(*self)
    }

    fn type_id(&self) -> (r: TypeId) {
        send_type_id(self)
    }

    fn downcast_ref<T: 'static>(&self) -> (r: Option<&T>) {
        send_downcast_ref::<T>(self)
    }

    fn downcast_box<T: 'static>(boxed: Self) -> (r: Result<Box<T>, Self>) {
        send_downcast_box::<T>(boxed)
    }
}

impl Downcast for SendAny {
    fn downcast_mut<T: 'static>(&mut self) -> (r: Option<&mut T>) {
        send_downcast_mut::<T>(self)
    }
}

impl<T: Send + 'static> IntoBox<SendAny> for T {
    fn into_box(self) -> (r: SendAny) {
        send_lift(self)
    }
}

/// A handle that owns one value of any static type that can be sent to another thread and shared between threads.
#[verifier::external_body]
pub struct SyncAny {
    inner: Box<dyn Any + Send + Sync>,
}

/// The identity of the type of the value that a handle holds.
pub uninterp spec fn sync_identity(handle: SyncAny) -> TypeId;

/// `Any::type_id`, on the value in the handle: the identity of its type.
#[verifier::external_body]
fn sync_type_id(handle: &SyncAny) -> (r: TypeId)
    ensures
        r == sync_identity(*handle),
{
    (*handle.inner).type_id()
}

/// `downcast_ref`, on the value in the handle: the value exactly when the
/// identity of its type is the one that `TypeId::of` gives for `T`.
#[verifier::external_body]
fn sync_downcast_ref<'a, T: 'static>(handle: &'a SyncAny) -> (r: Option<&'a T>)
    ensures
        forall|id: TypeId| identifies::<T>(id) ==> (r is Some <==> sync_identity(*handle) == id),
{
    handle.inner.downcast_ref::<T>()
}

/// `downcast_mut`, on the value in the handle: the value exactly when the
/// identity of its type is the one that `TypeId::of` gives for `T`, and then
/// a value that `downcast_ref` can give. When the loan ends the handle
/// holds what was left behind the reference, of the same type: a cast of it
/// to `T`, by reference or by value, gives that. A failed cast leaves the
/// handle as it was.
#[verifier::external_body]
fn sync_downcast_mut<'a, T: 'static>(handle: &'a mut SyncAny) -> (r: Option<&'a mut T>)
    ensures
        sync_identity(*final(handle)) == sync_identity(*old(handle)),
        forall|id: TypeId|
            identifies::<T>(id) ==> (r is Some <==> sync_identity(*old(handle)) == id),
        r is None ==> *final(handle) == *old(handle),
        r is Some ==> <SyncAny as Erased>::downcast_ref::<T>.ensures((&*old(handle),), Some(&*r->Some_0)),
        forall|out: Option<&T>| #[trigger]
            <SyncAny as Erased>::downcast_ref::<T>.ensures((&*final(handle),), out) ==> (r is Some
                && out is Some ==> *out->Some_0 == *final(r->Some_0)),
        forall|out: Result<Box<T>, SyncAny>| #[trigger]
            <SyncAny as Erased>::downcast_box::<T>.ensures((*final(handle),), out) ==> (r is Some && out is Ok
                ==> *out->Ok_0 == *final(r->Some_0)),
{
    handle.inner.downcast_mut::<T>()
}

/// `Box::downcast`: the value exactly when the identity of its type is the
/// one that `TypeId::of` gives for `T`, otherwise the box that was handed in.
#[verifier::external_body]
fn sync_downcast_box<T: 'static>(handle: SyncAny) -> (r: Result<Box<T>, SyncAny>)
    ensures
        forall|id: TypeId| identifies::<T>(id) ==> (r is Ok <==> sync_identity(handle) == id),
        match r {
            Ok(_) => true,
            Err(back) => back == handle,
        },
{
    match handle.inner.downcast::<T>() {
        Ok(value) => Ok(value),
        Err(inner) => Err(SyncAny { inner }),
    }
}

/// `Box::new`, erased: a handle that owns `value`. The identity of the type
/// of what it holds is the one that `TypeId::of` gives for `T`, and a cast of
/// the handle to `T`, by reference or by value, gives `value`.
#[verifier::external_body]
fn sync_lift<T: Send + Sync + 'static>(value: T) -> (r: SyncAny)
    ensures
        forall|id: TypeId| identifies::<T>(id) ==> sync_identity(r) == id,
        forall|out: Option<&T>| #[trigger]
            <SyncAny as Erased>::downcast_ref::<T>.ensures((&r,), out) ==> (out is Some ==> *out->Some_0 == value),
        forall|out: Result<Box<T>, SyncAny>| #[trigger]
            <SyncAny as Erased>::downcast_box::<T>.ensures((r,), out) ==> (out is Ok ==> *out->Ok_0 == value),
{
    SyncAny { inner: Box::new(value) }
}

impl Erased for SyncAny {
    open spec fn identity(&self) -> TypeId {
        sync_identity(*self)
    }

    fn type_id(&self) -> (r: TypeId) {
        sync_type_id(self)
    }

    fn downcast_ref<T: 'static>(&self) -> (r: Option<&T>) {
        sync_downcast_ref::<T>(self)
    }

    fn downcast_box<T: 'static>(boxed: Self) -> (r: Result<Box<T>, Self>) {
        sync_downcast_box::<T>(boxed)
    }
}

impl Downcast for SyncAny {
    fn downcast_mut<T: 'static>(&mut self) -> (r: Option<&mut T>) {
        sync_downcast_mut::<T>(self)
    }
}

impl<T: Send + Sync + 'static> IntoBox<SyncAny> for T {
    fn into_box(self) -> (r: SyncAny) {
        sync_lift(self)
    }
}

} // verus!
