//! The wayland objects and cursor-theme handles that the library drives,
//! and the calls it makes on them. Each function here sends one request or
//! asks the cursor library one question; what the answer holds depends on
//! the compositor or on the theme files, so most promise nothing of it.
use vstd::prelude::*;
use vstd::utf8::encode_utf8;
use wayland_client::protocol::{wl_compositor, wl_pointer, wl_shm, wl_surface};
use wayland_client::Attached;
use wayland_cursor::{Cursor, CursorImageBuffer, CursorTheme};
use crate::model::Frame;

verus! {

/// The compositor global, attached to an event queue; surfaces for the
/// themed pointers are made from it. Only the cursor calls look inside.
#[verifier::external_body]
pub struct AttachedCompositor(pub Attached<wl_compositor::WlCompositor>);

/// The shared-memory global, attached to an event queue, that backs the
/// cursor images. Only the cursor calls look inside.
#[verifier::external_body]
pub struct AttachedShm(pub Attached<wl_shm::WlShm>);

#[verifier::external_type_specification]
#[verifier::external_body]
pub struct ExWlSurface(wl_surface::WlSurface);

#[verifier::external_type_specification]
#[verifier::external_body]
pub struct ExWlPointer(wl_pointer::WlPointer);

#[verifier::external_type_specification]
#[verifier::external_body]
pub struct ExCursorTheme(CursorTheme);

#[verifier::external_type_specification]
#[verifier::external_body]
pub struct ExCursor<'a>(Cursor<'a>);

#[verifier::external_type_specification]
#[verifier::external_body]
pub struct ExCursorImageBuffer<'a>(CursorImageBuffer<'a>);

/// A string that the cursor library can hand to C: no NUL byte in it.
pub open spec fn c_compatible(s: Seq<char>) -> bool {
    !encode_utf8(s).contains(0u8)
}

/// Relies on wayland_cursor::is_available: whether libwayland-cursor could
/// be opened on this host.
#[verifier::external_body]
pub(crate) fn cursor_library_available() -> bool {
    wayland_cursor::is_available()
}

/// Relies on wayland_cursor::load_theme: loads the named theme (the default
/// one for `None`) at `size` pixels. It panics on a NUL byte in the name,
/// and when libwayland-cursor cannot be used: a theme cache is only made by
/// `ThemeManager::init`, after `is_available` said yes.
#[verifier::external_body]
pub(crate) fn load_theme(name: &Option<String>, size: u32, shm: &AttachedShm) -> CursorTheme
    requires
        name matches Some(n) ==> c_compatible(n@),
{
    wayland_cursor::load_theme(name.as_deref(), size, &shm.0)
}

/// Relies on wayland_cursor::CursorTheme::get_cursor: the cursor of that
/// name, if the theme has one. It panics on a NUL byte in the name.
#[verifier::external_body]
pub(crate) fn cursor_named<'a>(theme: &'a CursorTheme, name: &str) -> Option<Cursor<'a>>
    requires
        c_compatible(name@),
{
    theme.get_cursor(name)
}

/// Relies on wayland_cursor::Cursor::frame_buffer: the buffer that holds
/// image `frame` of the cursor, if it has that many images.
#[verifier::external_body]
pub(crate) fn frame_buffer<'a>(cursor: &'a Cursor<'a>, frame: usize) -> Option<CursorImageBuffer<'a>> {
    cursor.frame_buffer(frame)
}

/// Relies on wayland_cursor::Cursor::frame_info: size and hotspot of image
/// `frame` of the cursor, if it has that many images.
#[verifier::external_body]
pub(crate) fn frame_info(cursor: &Cursor, frame: usize) -> Option<Frame> {
    cursor.frame_info(frame).map(|(width, height, hotspot_x, hotspot_y, _delay)| Frame {
        width,
        height,
        hotspot_x,
        hotspot_y,
    })
}

/// A surface made for a pointer, with the protocol version it was bound
/// with, as the proxy reported it right after its creation, and whether a
/// `destroy` was sent for it. Only `bind_surface` makes one.
pub struct BoundSurface {
    surface: wl_surface::WlSurface,
    version: u32,
    destroyed: Ghost<bool>,
}

impl BoundSurface {
    /// The version the surface was bound with.
    pub closed spec fn version(&self) -> u32 {
        self.version
    }

    /// A `destroy` request was sent for the surface.
    pub closed spec fn is_destroyed(&self) -> bool {
        self.destroyed@
    }

    /// The version the surface was bound with.
    pub fn read_version(&self) -> (r: u32)
        ensures
            r == self.version(),
    {
        self.version
    }

    /// Sends the surface its one `destroy` request.
    pub fn destroy(&mut self)
        requires
            !old(self).is_destroyed(),
        ensures
            final(self).is_destroyed(),
            final(self).version() == old(self).version(),
    {
        send_destroy(self);
        self.destroyed = Ghost(true);
    }
}

/// A new surface from `compositor`, with the version it was bound with.
pub fn bind_surface(compositor: &AttachedCompositor) -> (r: BoundSurface)
    ensures
        !r.is_destroyed(),
{
    let surface = create_surface(compositor);
    let version = surface_version(&surface);
    BoundSurface { surface, version, destroyed: Ghost(false) }
}

/// Relies on wl_compositor::WlCompositor::create_surface: a new surface,
/// kept as a plain proxy.
#[verifier::external_body]
fn create_surface(compositor: &AttachedCompositor) -> wl_surface::WlSurface {
    (*compositor.0.create_surface()).clone().detach()
}

/// Relies on wayland_client::Proxy::version: the protocol version that the
/// surface was bound with. It stays the same while the object lives, and
/// reads 0 once it is dead, when requests are no longer checked against it.
#[verifier::external_body]
fn surface_version(surface: &wl_surface::WlSurface) -> u32 {
    surface.as_ref().version()
}

/// Relies on wl_surface::WlSurface::set_buffer_scale: sends the request,
/// which the proxy refuses with a panic on a surface bound below version 3.
#[verifier::external_body]
pub(crate) fn set_buffer_scale(surface: &BoundSurface, scale: i32)
    requires
        !surface.is_destroyed(),
        surface.version() >= 3,
{
    surface.surface.set_buffer_scale(scale)
}

/// Relies on wl_surface::WlSurface::attach: sends the request with the
/// cursor image as buffer.
#[verifier::external_body]
pub(crate) fn attach(surface: &BoundSurface, buffer: &CursorImageBuffer, x: i32, y: i32)
    requires
        !surface.is_destroyed(),
{
    surface.surface.attach(Some(buffer), x, y)
}

/// Relies on wl_surface::WlSurface::damage: sends the request.
#[verifier::external_body]
pub(crate) fn damage(surface: &BoundSurface, x: i32, y: i32, width: i32, height: i32)
    requires
        !surface.is_destroyed(),
{
    surface.surface.damage(x, y, width, height)
}

/// Relies on wl_surface::WlSurface::damage_buffer: sends the request, which
/// the proxy refuses with a panic on a surface bound below version 4.
#[verifier::external_body]
pub(crate) fn damage_buffer(surface: &BoundSurface, x: i32, y: i32, width: i32, height: i32)
    requires
        !surface.is_destroyed(),
        surface.version() >= 4,
{
    surface.surface.damage_buffer(x, y, width, height)
}

/// Relies on wl_surface::WlSurface::commit: sends the request.
#[verifier::external_body]
pub(crate) fn commit(surface: &BoundSurface)
    requires
        !surface.is_destroyed(),
{
    surface.surface.commit()
}

/// Relies on wl_surface::WlSurface::destroy: sends the request, on a
/// surface that was not destroyed before.
#[verifier::external_body]
fn send_destroy(surface: &BoundSurface)
    requires
        !surface.is_destroyed(),
{
    surface.surface.destroy()
}

/// Relies on wl_pointer::WlPointer::set_cursor: sends the request, with
/// `surface` as the cursor image.
#[verifier::external_body]
pub(crate) fn set_pointer_cursor(
    pointer: &wl_pointer::WlPointer,
    serial: u32,
    surface: &BoundSurface,
    hotspot_x: i32,
    hotspot_y: i32,
)
    requires
        !surface.is_destroyed(),
{
    pointer.set_cursor(serial, Some(&surface.surface), hotspot_x, hotspot_y)
}

/// Relies on the `Clone` of wl_pointer::WlPointer: another proxy handle to
/// the same pointer object.
#[verifier::external_body]
pub(crate) fn clone_pointer(pointer: &wl_pointer::WlPointer) -> wl_pointer::WlPointer {
    pointer.clone()
}

} // verus!
