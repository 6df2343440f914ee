use vstd::prelude::*;

use crate::error::KernelError;
use crate::error::KernelResult;
use crate::error::LayerReason;
use crate::pixel::PixelColor;
use crate::vector::Size;
use crate::vector::Vector2D;

verus! {

pub const CLOSE_BUTTON_WIDTH: usize = 16;

pub const CLOSE_BUTTON_HEIGHT: usize = 14;

/// The distance of the close button from the right edge of its toolbar.
pub const CLOSE_BUTTON_MARGIN: usize = 5;

/// Where a layer lies and how large it is.
#[derive(Debug, Clone, Copy, PartialEq, Eq, Structural)]
pub struct Transform2D {
    pub pos: Vector2D<usize>,
    pub size: Size,
}

impl Transform2D {
    pub fn new(pos: Vector2D<usize>, size: Size) -> (transform: Self)
        ensures
            transform.pos == pos,
            transform.size == size,
    {
        Self { pos, size }
    }
}

/// The colours of a text and of what lies behind it.
#[derive(Debug, Clone, Copy, PartialEq, Eq, Structural)]
pub struct TextColors {
    pub foreground: PixelColor,
    pub background: PixelColor,
}

impl TextColors {
    pub fn new(foreground: PixelColor, background: PixelColor) -> (colors: Self)
        ensures
            colors == (TextColors { foreground, background }),
    {
        Self { foreground, background }
    }

    pub fn background_ref(&self) -> (background: &PixelColor)
        ensures
            *background == self.background,
    {
        &self.background
    }
}

/// The layer of the mouse cursor.
#[derive(Debug, Clone, Copy, PartialEq, Eq, Structural)]
pub struct CursorLayer {
    pub pos: Vector2D<usize>,
}

/// The layer of the console.
#[derive(Debug, Clone, Copy, PartialEq, Eq, Structural)]
pub struct ConsoleLayer {
    pub transform: Transform2D,
}

/// A layer that is filled with one colour.
#[derive(Debug, Clone, Copy, PartialEq, Eq, Structural)]
pub struct ShapeLayer {
    pub color: PixelColor,
    pub transform: Transform2D,
}

impl ShapeLayer {
    pub fn new(color: PixelColor, transform: Transform2D) -> (layer: Self)
        ensures
            layer.color == color,
            layer.transform == transform,
    {
        Self { color, transform }
    }

    pub fn set_color(&mut self, color: PixelColor)
        ensures
            final(self).color == color,
            final(self).transform == old(self).transform,
    {
        self.color = color;
    }

    pub fn into_enum(self) -> (layer: Layer)
        ensures
            layer == Layer::Shape(self),
    {
        Layer::Shape(self)
    }
}

/// A layer that shows a line of text.
#[derive(Debug)]
pub struct TextLayer {
    pub colors: TextColors,
    pub pos: Vector2D<usize>,
    pub text_frame_size: Size,
    pub text: String,
}

impl TextLayer {
    /// A layer without text.
    pub fn new(pos: Vector2D<usize>, text_frame_size: Size, colors: TextColors) -> (layer: Self)
        ensures
            layer.colors == colors,
            layer.pos == pos,
            layer.text_frame_size == text_frame_size,
            layer.text@ == Seq::<char>::empty(),
    {
        Self { colors, pos, text_frame_size, text: String::new() }
    }

    /// Replaces the text. A text with characters outside ASCII cannot be
    /// shown: it is refused with `NotSupportCharacter` and the layer keeps
    /// the text it has.
    pub fn update_string(&mut self, text: &str) -> (r: KernelResult)
        ensures
            final(self).colors == old(self).colors,
            final(self).pos == old(self).pos,
            final(self).text_frame_size == old(self).text_frame_size,
            text.is_ascii() ==> r == Ok::<(), KernelError>(()) && final(self).text@ == text@,
            !text.is_ascii() ==> r == Err::<(), KernelError>(KernelError::NotSupportCharacter)
                && final(self).text == old(self).text,
    {
        if !text.is_ascii() {
            return Err(KernelError::NotSupportCharacter);
        }
        self.text = text.to_owned();
        Ok(())
    }

    /// Replaces the colours.
    pub fn change_colors(&mut self, colors: TextColors) -> (r: KernelResult)
        ensures
            r == Ok::<(), KernelError>(()),
            final(self).colors == colors,
            final(self).pos == old(self).pos,
            final(self).text_frame_size == old(self).text_frame_size,
            final(self).text == old(self).text,
    {
        self.colors = colors;
        Ok(())
    }

    pub fn into_enum(self) -> (layer: Layer)
        ensures
            layer == Layer::Text(self),
    {
        Layer::Text(self)
    }
}

/// The button that closes a window.
#[derive(Debug, Clone, Copy, PartialEq, Eq, Structural)]
pub struct CloseButtonLayer {
    pub pos: Vector2D<usize>,
}

impl CloseButtonLayer {
    pub fn new(pos: Vector2D<usize>) -> (layer: Self)
        ensures
            layer.pos == pos,
    {
        Self { pos }
    }

    pub fn into_enum(self) -> (layer: Layer)
        ensures
            layer == Layer::CloseButton(self),
    {
        Layer::CloseButton(self)
    }
}

/// A layer of the screen.
#[derive(Debug)]
pub enum Layer {
    Cursor(CursorLayer),
    Console(ConsoleLayer),
    Shape(ShapeLayer),
    Text(TextLayer),
    CloseButton(CloseButtonLayer),
    Toolbar(ToolbarLayer),
}

/// The error for a layer of another kind than the one asked for.
pub open spec fn illegal_layer() -> KernelError {
    KernelError::FailedOperateLayer(LayerReason::IllegalLayer)
}

impl Layer {
    /// The cursor layer in this layer, or the error `IllegalLayer` where
    /// the layer is of another kind.
    pub fn require_cursor(&mut self) -> (r: KernelResult<&mut CursorLayer>)
        ensures
            match *old(self) {
                Layer::Cursor(cursor) => r matches Ok(found) && *found == cursor && *final(self)
                    == Layer::Cursor(*final(found)),
                _ => r matches Err(e) && e == illegal_layer() && *final(self) == *old(self),
            },
    {
        match self {
            Self::Cursor(cursor) => Ok(cursor),
            _ => Err(KernelError::FailedOperateLayer(LayerReason::IllegalLayer)),
        }
    }

    /// The console layer in this layer, or the error `IllegalLayer` where
    /// the layer is of another kind.
    pub fn require_console(&mut self) -> (r: KernelResult<&mut ConsoleLayer>)
        ensures
            match *old(self) {
                Layer::Console(console) => r matches Ok(found) && *found == console && *final(self)
                    == Layer::Console(*final(found)),
                _ => r matches Err(e) && e == illegal_layer() && *final(self) == *old(self),
            },
    {
        match self {
            Self::Console(console) => Ok(console),
            _ => Err(KernelError::FailedOperateLayer(LayerReason::IllegalLayer)),
        }
    }

    /// The layer under the name `key`.
    pub fn into_layer_key(self, key: &str) -> (layer_key: LayerKey)
        ensures
            layer_key.key@ == key@,
            layer_key.layer == self,
    {
        LayerKey::new(key, self)
    }
}

/// A layer with the name it is found by.
#[derive(Debug)]
pub struct LayerKey {
    pub key: String,
    pub layer: Layer,
}

impl LayerKey {
    pub fn new(key: &str, layer: Layer) -> (layer_key: Self)
        ensures
            layer_key.key@ == key@,
            layer_key.layer == layer,
    {
        Self { key: key.to_owned(), layer }
    }
}

/// Layers that are moved and drawn together.
#[derive(Debug)]
pub struct MultipleLayer {
    pub transform: Transform2D,
    pub layers: Vec<LayerKey>,
}

impl MultipleLayer {
    /// No layers yet.
    pub fn new(transform: Transform2D) -> (layer: Self)
        ensures
            layer.transform == transform,
            layer.layers@ == Seq::<LayerKey>::empty(),
    {
        Self { transform, layers: Vec::new() }
    }

    /// Puts `layer_key` on top of the layers there are.
    pub fn new_layer(&mut self, layer_key: LayerKey)
        ensures
            final(self).transform == old(self).transform,
            final(self).layers@ == old(self).layers@.push(layer_key),
    {
        self.layers.push(layer_key);
    }

    pub fn transform(&self) -> (transform: Transform2D)
        ensures
            transform == self.transform,
    {
        self.transform
    }
}

/// The name of the background of a toolbar.
pub open spec fn background_key() -> Seq<char> {
    "Window Toolbar Background"@
}

/// The name of the title of a toolbar.
pub open spec fn title_key() -> Seq<char> {
    "Window Toolbar Title"@
}

/// The name of the close button of a toolbar.
pub open spec fn close_button_key() -> Seq<char> {
    "toolbar close button"@
}

/// Where the close button of a toolbar of the size `size` lies: five
/// pixels from the right edge and in the middle of the height.
pub open spec fn close_button_pos(size: Size) -> Vector2D<usize> {
    Vector2D::new(
        (size.width() - 16 - 5) as usize,
        ((size.height() - 14) / 2) as usize,
    )
}

/// A toolbar has room for its close button.
pub open spec fn holds_close_button(size: Size) -> bool {
    size.width() >= 16 + 5 && size.height() >= 14
}

/// The three layers of a toolbar with the title `title`, from the bottom
/// up: a background in the background colour of `colors`, the title in
/// `colors`, and the close button.
pub open spec fn is_toolbar(layers: MultipleLayer, title: Seq<char>, colors: TextColors) -> bool {
    &&& layers.layers@.len() == 3
    &&& layers.layers@[0].key@ == background_key()
    &&& layers.layers@[0].layer matches Layer::Shape(shape)
    &&& shape.color == colors.background
    &&& shape.transform == layers.transform
    &&& layers.layers@[1].key@ == title_key()
    &&& layers.layers@[1].layer matches Layer::Text(text)
    &&& text.colors == colors
    &&& text.text@ == title
    &&& text.pos == Vector2D::new(24usize, 4usize)
    &&& text.text_frame_size == Size::new(12, 1)
    &&& layers.layers@[2].key@ == close_button_key()
    &&& layers.layers@[2].layer matches Layer::CloseButton(button)
    &&& button.pos == close_button_pos(layers.transform.size)
}

/// The bar at the top of a window, with the title of the window and the
/// button that closes it. It is drawn in other colours while its window
/// is the active one.
#[derive(Debug)]
pub struct ToolbarLayer {
    layers: MultipleLayer,
    active_colors: TextColors,
    deactivate_colors: TextColors,
}

impl ToolbarLayer {
    pub closed spec fn layers(&self) -> MultipleLayer {
        self.layers
    }

    pub closed spec fn active_colors(&self) -> TextColors {
        self.active_colors
    }

    pub closed spec fn deactivate_colors(&self) -> TextColors {
        self.deactivate_colors
    }

    /// The title of the toolbar.
    pub open spec fn title(&self) -> Seq<char> {
        match self.layers().layers@[1].layer {
            Layer::Text(text) => text.text@,
            _ => Seq::empty(),
        }
    }

    /// The toolbar is drawn in `colors`.
    pub open spec fn shown_in(&self, colors: TextColors) -> bool {
        is_toolbar(self.layers(), self.title(), colors)
    }

    /// The toolbar is drawn in its active or in its other colours.
    pub open spec fn wf(&self) -> bool {
        self.shown_in(self.active_colors()) || self.shown_in(self.deactivate_colors())
    }

    /// A toolbar with the title `title`, drawn in `deactivate_colors`.
    pub fn new(
        title: &str,
        transform: Transform2D,
        active_colors: TextColors,
        deactivate_colors: TextColors,
    ) -> (toolbar: Self)
        requires
            title.is_ascii(),
            holds_close_button(transform.size),
        ensures
            toolbar.wf(),
            toolbar.shown_in(deactivate_colors),
            toolbar.title() == title@,
            toolbar.layers().transform == transform,
            toolbar.active_colors() == active_colors,
            toolbar.deactivate_colors() == deactivate_colors,
    {
        Self { layers: toolbar_layer(title, transform, deactivate_colors), active_colors, deactivate_colors }
    }

    fn show(&mut self, colors: TextColors)
        requires
            old(self).wf(),
        ensures
            final(self).shown_in(colors),
            final(self).title() == old(self).title(),
            final(self).layers().transform == old(self).layers().transform,
            final(self).active_colors() == old(self).active_colors(),
            final(self).deactivate_colors() == old(self).deactivate_colors(),
    {
        let ghost before = self.layers.layers@;
        let title = self.layers.layers.remove(1);
        let background = self.layers.layers.remove(0);
        let transform = self.layers.transform;
        let mut shape = match background.layer {
            Layer::Shape(shape) => shape,
            _ => ShapeLayer::new(colors.background, transform),
        };
        shape.set_color(colors.background);
        let mut text = match title.layer {
            Layer::Text(text) => text,
            _ => TextLayer::new(Vector2D::new(24, 4), Size::new(12, 1), colors),
        };
        let _ = text.change_colors(colors);
        self.layers.layers.insert(0, LayerKey { key: background.key, layer: Layer::Shape(shape) });
        self.layers.layers.insert(1, LayerKey { key: title.key, layer: Layer::Text(text) });
        proof {
            let after = self.layers.layers@;
            assert(after.len() == 3);
            assert(after[2] == before[2]);
        }
    }

    /// The colours the toolbar is drawn in.
    pub fn shown_colors(&self) -> (colors: TextColors)
        requires
            self.wf(),
        ensures
            self.shown_in(colors),
    {
        match &self.layers.layers[1].layer {
            Layer::Text(text) => text.colors,
            _ => self.deactivate_colors,
        }
    }

    /// The colour of the background of the toolbar.
    pub fn background_color(&self) -> (color: PixelColor)
        requires
            self.wf(),
        ensures
            forall|colors: TextColors| self.shown_in(colors) ==> color == colors.background,
    {
        match &self.layers.layers[0].layer {
            Layer::Shape(shape) => shape.color,
            _ => self.deactivate_colors.background,
        }
    }

    /// The title of the toolbar.
    pub fn title_text(&self) -> (title: &str)
        requires
            self.wf(),
        ensures
            title@ == self.title(),
    {
        proof {
            reveal_strlit("");
        }
        match &self.layers.layers[1].layer {
            Layer::Text(text) => text.text.as_str(),
            _ => "",
        }
    }

    /// Draws the toolbar in its active colours.
    pub fn activate(&mut self) -> (r: KernelResult)
        requires
            old(self).wf(),
        ensures
            r == Ok::<(), KernelError>(()),
            final(self).wf(),
            final(self).shown_in(old(self).active_colors()),
            final(self).title() == old(self).title(),
            final(self).layers().transform == old(self).layers().transform,
            final(self).active_colors() == old(self).active_colors(),
            final(self).deactivate_colors() == old(self).deactivate_colors(),
    {
        let colors = self.active_colors;
        self.show(colors);
        Ok(())
    }

    /// Draws the toolbar in the colours of a window that is not active.
    pub fn deactivate(&mut self) -> (r: KernelResult)
        requires
            old(self).wf(),
        ensures
            r == Ok::<(), KernelError>(()),
            final(self).wf(),
            final(self).shown_in(old(self).deactivate_colors()),
            final(self).title() == old(self).title(),
            final(self).layers().transform == old(self).layers().transform,
            final(self).active_colors() == old(self).active_colors(),
            final(self).deactivate_colors() == old(self).deactivate_colors(),
    {
        let colors = self.deactivate_colors;
        self.show(colors);
        Ok(())
    }

    pub fn into_enum(self) -> (layer: Layer)
        ensures
            layer == Layer::Toolbar(self),
    {
        Layer::Toolbar(self)
    }
}

/// Makes the layers of a toolbar with the title `title`; see
/// [`is_toolbar`].
pub fn toolbar_layer(title: &str, transform: Transform2D, deactivate_colors: TextColors) -> (layer:
    MultipleLayer)
    requires
        title.is_ascii(),
        holds_close_button(transform.size),
    ensures
        layer.transform == transform,
        is_toolbar(layer, title@, deactivate_colors),
{
    let mut layer = MultipleLayer::new(transform);

    layer.new_layer(toolbar_background_layer(transform, deactivate_colors));
    layer.new_layer(toolbar_title_layer(title, deactivate_colors));
    let transform = layer.transform();
    layer.new_layer(toolbar_close_button(&transform));

    layer
}

/// Makes the background of a toolbar: a shape in the background colour of
/// `deactivate_colors` that covers `transform`.
pub fn toolbar_background_layer(transform: Transform2D, deactivate_colors: TextColors) -> (layer_key:
    LayerKey)
    ensures
        layer_key.key@ == background_key(),
        layer_key.layer == Layer::Shape(
            ShapeLayer { color: deactivate_colors.background, transform },
        ),
{
    ShapeLayer::new(*deactivate_colors.background_ref(), transform).into_enum().into_layer_key(
        "Window Toolbar Background",
    )
}

/// Makes the title of a toolbar: the text `title` in `deactivate_colors`.
pub fn toolbar_title_layer(title: &str, deactivate_colors: TextColors) -> (layer_key: LayerKey)
    requires
        title.is_ascii(),
    ensures
        layer_key.key@ == title_key(),
        layer_key.layer matches Layer::Text(text) && text.colors == deactivate_colors && text.text@
            == title@ && text.pos == Vector2D::new(24usize, 4usize) && text.text_frame_size
            == Size::new(12, 1),
{
    let mut text = TextLayer::new(Vector2D::new(24, 4), Size::new(12, 1), deactivate_colors);

    let _ = text.update_string(title);

    text.into_enum().into_layer_key("Window Toolbar Title")
}

/// Makes the close button of a toolbar that covers `transform`; see
/// [`close_button_pos`].
pub fn toolbar_close_button(transform: &Transform2D) -> (layer_key: LayerKey)
    requires
        holds_close_button(transform.size),
    ensures
        layer_key.key@ == close_button_key(),
        layer_key.layer == Layer::CloseButton(
            CloseButtonLayer { pos: close_button_pos(transform.size) },
        ),
{
    CloseButtonLayer::new(
        Vector2D::new(
            transform.size.width() - CLOSE_BUTTON_WIDTH - CLOSE_BUTTON_MARGIN,
            (transform.size.height() - CLOSE_BUTTON_HEIGHT) / 2,
        ),
    ).into_enum().into_layer_key("toolbar close button")
}

} // verus!
