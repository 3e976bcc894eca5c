//! Structural projection: the type that has the shape of another type, with
//! the type of each component replaced.
//!
//! A [`Projector`] says by what a component type is replaced. A type that
//! implements [`StructuralProjection`] says what it becomes when a projector
//! is applied to each of its components. A type without components (the unit
//! type, a number, a truth value, a text) becomes the unit type whatever the
//! projector. All of this happens between types: no value is involved.

use crate::meta::{TreeMeta, WrappedMeta};
use core::marker::PhantomData;
use vstd::prelude::*;

verus! {

/// A type that has components, each of which a projector can replace.
pub trait StructuralProjection<TyProjector> {
    /// The type of the same shape, with each component type replaced by what
    /// `TyProjector` makes of it.
    type Projection;
}

/// A rule that replaces the type `TyInput` by the type `Output`.
///
/// A projector is never a value: the types that implement this trait have no
/// values.
pub trait Projector<TyInput> {
    /// What `TyInput` is replaced by.
    type Output;
}

/// What `Base` becomes when `P` is applied to each of its components.
pub type Project<Base, P> = <Base as StructuralProjection<P>>::Projection;

/// Replaces every component type by `T`.
pub struct ConstProjector<T>(PhantomData<T>, core::convert::Infallible);

impl<TyInput, T> Projector<TyInput> for ConstProjector<T> {
    type Output = T;
}

/// Replaces every component type by a vector of it.
pub enum VecProjector {
    /// Never built: a projector has no values.
    Never(core::convert::Infallible),
}

impl<TyInput> Projector<TyInput> for VecProjector {
    type Output = Vec<TyInput>;
}

/// Replaces every component type by a slice of it.
pub struct SliceProjector<'a>(PhantomData<&'a ()>, core::convert::Infallible);

impl<'a, TyInput: 'a> Projector<TyInput> for SliceProjector<'a> {
    type Output = &'a [TyInput];
}

/// Replaces every component type by a shared reference to it.
pub struct RefProjector<'a>(PhantomData<&'a ()>, core::convert::Infallible);

impl<'a, TyInput: 'a> Projector<TyInput> for RefProjector<'a> {
    type Output = &'a TyInput;
}

/// Replaces every component type by a mutable reference to it.
pub struct RefMutProjector<'a>(PhantomData<&'a mut ()>, core::convert::Infallible);

impl<'a, TyInput: 'a> Projector<TyInput> for RefMutProjector<'a> {
    type Output = &'a mut TyInput;
}

impl<TyProjector> StructuralProjection<TyProjector> for () {
    type Projection = ();
}

impl<TyProjector> StructuralProjection<TyProjector> for bool {
    type Projection = ();
}

impl<TyProjector> StructuralProjection<TyProjector> for u32 {
    type Projection = ();
}

impl<TyProjector> StructuralProjection<TyProjector> for String {
    type Projection = ();
}

impl<TyProjector, T> StructuralProjection<TyProjector> for Vec<T> where TyProjector: Projector<T> {
    type Projection = Vec<<TyProjector as Projector<T>>::Output>;
}

impl<TyProjector, T0> StructuralProjection<TyProjector> for (T0,) where TyProjector: Projector<T0> {
    type Projection = (<TyProjector as Projector<T0>>::Output,);
}

impl<TyProjector, T0, T1> StructuralProjection<TyProjector> for (T0, T1) where
    TyProjector: Projector<T0> + Projector<T1>,
 {
    type Projection = (
        <TyProjector as Projector<T0>>::Output,
        <TyProjector as Projector<T1>>::Output,
    );
}

impl<TyProjector, T0, T1, T2> StructuralProjection<TyProjector> for (T0, T1, T2) where
    TyProjector: Projector<T0> + Projector<T1> + Projector<T2>,
 {
    type Projection = (
        <TyProjector as Projector<T0>>::Output,
        <TyProjector as Projector<T1>>::Output,
        <TyProjector as Projector<T2>>::Output,
    );
}

/// A type whose components can each be given metadata of type `M`.
///
/// `Meta` is the structural projection of the type through
/// [`ConstProjector<M>`].
pub trait MetaProjection<M> {
    /// The type of the same shape that holds an `M` for each component.
    type Meta;
}

/// The type that holds an `M` for each component of a `T`.
pub type MetaFor<T, M> = <T as MetaProjection<M>>::Meta;

impl<M> MetaProjection<M> for () {
    type Meta = <Self as StructuralProjection<ConstProjector<M>>>::Projection;
}

impl<M, T0> MetaProjection<M> for (T0,) {
    type Meta = <Self as StructuralProjection<ConstProjector<M>>>::Projection;
}

impl<M, T0, T1> MetaProjection<M> for (T0, T1) {
    type Meta = <Self as StructuralProjection<ConstProjector<M>>>::Projection;
}

impl<M, T0, T1, T2> MetaProjection<M> for (T0, T1, T2) {
    type Meta = <Self as StructuralProjection<ConstProjector<M>>>::Projection;
}

impl<M> MetaProjection<M> for bool {
    type Meta = <Self as StructuralProjection<ConstProjector<M>>>::Projection;
}

impl<M> MetaProjection<M> for u32 {
    type Meta = <Self as StructuralProjection<ConstProjector<M>>>::Projection;
}

impl<M> MetaProjection<M> for String {
    type Meta = <Self as StructuralProjection<ConstProjector<M>>>::Projection;
}

impl<M, T> MetaProjection<M> for Vec<T> {
    type Meta = <Self as StructuralProjection<ConstProjector<M>>>::Projection;
}

/// Replaces every component type by a [`TreeMeta`] that holds an `M` for the
/// component, and below it the projection of the component through this
/// same projector.
pub struct TreeMetaProjector<M>(PhantomData<M>, core::convert::Infallible);

impl<TyInput, M> Projector<TyInput> for TreeMetaProjector<M> where
    TyInput: StructuralProjection<TreeMetaProjector<M>>,
 {
    type Output = TreeMeta<M, <TyInput as StructuralProjection<TreeMetaProjector<M>>>::Projection>;
}

/// A type whose components can each be given a tree of metadata of type `M`:
/// metadata of the component, and of its own components below.
///
/// `TreeMeta` is the structural projection of the type through
/// [`TreeMetaProjector<M>`].
pub trait TreeMetaProjection<M> {
    /// The type of the same shape that holds a [`TreeMeta`] for each
    /// component.
    type TreeMeta;
}

impl<M> TreeMetaProjection<M> for () {
    type TreeMeta = <Self as StructuralProjection<TreeMetaProjector<M>>>::Projection;
}

impl<M> TreeMetaProjection<M> for bool {
    type TreeMeta = <Self as StructuralProjection<TreeMetaProjector<M>>>::Projection;
}

impl<M> TreeMetaProjection<M> for u32 {
    type TreeMeta = <Self as StructuralProjection<TreeMetaProjector<M>>>::Projection;
}

impl<M> TreeMetaProjection<M> for String {
    type TreeMeta = <Self as StructuralProjection<TreeMetaProjector<M>>>::Projection;
}

impl<M, T> TreeMetaProjection<M> for Vec<T> where T: TreeMetaProjection<M> {
    type TreeMeta = Vec<TreeMeta<M, T::TreeMeta>>;
}

/// Replaces every component type by a [`WrappedMeta`] that holds the
/// identifier of the component, and below it the projection of the component
/// through this same projector: the metadata that decoding puts beside a
/// value.
pub struct WrappedMetaProjector(core::convert::Infallible);

impl<TyInput> Projector<TyInput> for WrappedMetaProjector where
    TyInput: StructuralProjection<WrappedMetaProjector>,
 {
    type Output = WrappedMeta<<TyInput as StructuralProjection<WrappedMetaProjector>>::Projection>;
}

} // verus!
