use vstd::prelude::*;

verus! {

/// Where a card sits in the fanned stack: left or right of the center card at
/// some distance, or the center card itself.
#[derive(Debug, Clone, Copy, PartialEq, Eq, Structural)]
pub enum LayerSide {
    Left,
    Right,
    Center,
}

/// One card of the stack: which image it shows, how far from the center it
/// sits (the center card at 0) and on which side.
#[derive(Debug, Clone, Copy, PartialEq, Eq, Structural)]
pub struct LayerSlot {
    pub image_index: usize,
    pub distance: usize,
    pub side: LayerSide,
}

/// How many cards a stack shows for the given number of images: 7, 5, 3 or 1,
/// the largest that the images suffice for.
pub open spec fn visible_count(image_count: int) -> int {
    if image_count >= 7 {
        7
    } else if image_count >= 5 {
        5
    } else if image_count >= 3 {
        3
    } else {
        1
    }
}

/// The number of cards on each side of the center card.
pub open spec fn side_count(image_count: int) -> int {
    (visible_count(image_count) - 1) / 2
}

/// The card drawn at position `k` of the stack, in drawing order: pairs of side
/// cards from the outermost inwards, left before right, then the center card.
pub open spec fn spec_slot(image_count: int, k: int) -> LayerSlot {
    let sides = side_count(image_count);
    if k < 2 * sides {
        let distance = sides - k / 2;
        if k % 2 == 0 {
            LayerSlot {
                image_index: (2 * distance - 1) as usize,
                distance: distance as usize,
                side: LayerSide::Left,
            }
        } else {
            LayerSlot {
                image_index: (2 * distance) as usize,
                distance: distance as usize,
                side: LayerSide::Right,
            }
        }
    } else {
        LayerSlot { image_index: 0, distance: 0, side: LayerSide::Center }
    }
}

/// Plans the card stack for the given number of images: 7, 5, 3 or 1 cards,
/// so that no image is repeated, drawn from the outermost pair inwards and
/// ending with the center card, which shows the first image.
pub fn layers_for_count(image_count: usize) -> (res: Vec<LayerSlot>)
    ensures
        res@.len() == visible_count(image_count as int),
        forall|k: int| 0 <= k < res@.len() ==> #[trigger] res@[k] == spec_slot(image_count as int, k),
{
    let visible: usize = if image_count >= 7 {
        7
    } else if image_count >= 5 {
        5
    } else if image_count >= 3 {
        3
    } else {
        1
    };
    let sides = (visible - 1) / 2;
    let mut layers: Vec<LayerSlot> = Vec::new();
    let mut distance = sides;
    while distance >= 1
        invariant
            sides == side_count(image_count as int),
            sides <= 3,
            distance <= sides,
            layers@.len() == 2 * (sides - distance),
            forall|k: int|
                0 <= k < layers@.len() ==> #[trigger] layers@[k] == spec_slot(image_count as int, k),
        decreases distance,
    {
        layers.push(
            LayerSlot { image_index: distance * 2 - 1, distance, side: LayerSide::Left },
        );
        layers.push(LayerSlot { image_index: distance * 2, distance, side: LayerSide::Right });
        distance = distance - 1;
    }
    layers.push(LayerSlot { image_index: 0, distance: 0, side: LayerSide::Center });
    layers
}

/// Every image that a stack shows exists, and no image is shown twice.
pub proof fn lemma_layers_use_distinct_images(image_count: int, k: int, j: int)
    requires
        image_count >= 1,
        0 <= k < visible_count(image_count),
        0 <= j < visible_count(image_count),
        k != j,
    ensures
        spec_slot(image_count, k).image_index < image_count,
        spec_slot(image_count, k).image_index != spec_slot(image_count, j).image_index,
{
}

} // verus!
