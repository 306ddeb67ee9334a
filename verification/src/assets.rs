use crate::piece::PieceKind;
use crate::square::{Player, SquareColor};
use vstd::prelude::*;

verus! {

/// One piece sprite: the PNG bytes to composite for a piece of this color
/// standing on a square of this shade.
pub struct SpriteAsset {
    pub player: Player,
    pub shade: SquareColor,
    pub kind: PieceKind,
    pub data: Vec<u8>,
}

/// The bytes of the first sprite in `s` keyed by (player, shade, kind), if
/// any.
pub open spec fn spec_sprite_lookup(
    s: Seq<SpriteAsset>,
    player: Player,
    shade: SquareColor,
    kind: PieceKind,
) -> Option<Seq<u8>>
    decreases s.len(),
{
    if s.len() == 0 {
        None
    } else if s[0].player == player && s[0].shade == shade && s[0].kind == kind {
        Some(s[0].data@)
    } else {
        spec_sprite_lookup(s.drop_first(), player, shade, kind)
    }
}

/// The decoded font and piece sprites a render request draws from. The
/// embedding layer fills it once, from wherever it keeps its assets; the
/// renderer only ever reads it.
pub struct AssetStore {
    font: Option<ril::text::Font>,
    sprites: Vec<SpriteAsset>,
}

impl AssetStore {
    /// The sprites held, in insertion order.
    pub closed spec fn sprites_seq(self) -> Seq<SpriteAsset> {
        self.sprites@
    }

    /// Whether a coordinate font has been supplied.
    pub closed spec fn has_font(self) -> bool {
        self.font is Some
    }

    /// An empty store: no font, no sprites.
    pub fn new() -> (store: Self)
        ensures
            store.sprites_seq() == Seq::<SpriteAsset>::empty(),
            !store.has_font(),
    {
        AssetStore { font: None, sprites: Vec::new() }
    }

    /// Supplies the coordinate font.
    pub fn set_font(&mut self, font: ril::text::Font)
        ensures
            final(self).has_font(),
            final(self).sprites_seq() == old(self).sprites_seq(),
    {
        self.font = Some(font);
    }

    /// Adds one sprite at the end of the store.
    pub fn add_sprite(&mut self, player: Player, shade: SquareColor, kind: PieceKind, data: Vec<u8>)
        ensures
            final(self).sprites_seq() == old(self).sprites_seq().push(
                SpriteAsset { player, shade, kind, data },
            ),
            final(self).has_font() == old(self).has_font(),
    {
        self.sprites.push(SpriteAsset { player, shade, kind, data });
    }

    /// The font, if one was supplied.
    pub fn font(&self) -> (f: Option<&ril::text::Font>)
        ensures
            f is Some <==> self.has_font(),
    {
        match &self.font {
            Some(f) => Some(f),
            None => None,
        }
    }

    /// The bytes of the first sprite keyed by (player, shade, kind), if any.
    pub fn sprite(&self, player: Player, shade: SquareColor, kind: PieceKind) -> (r: Option<
        &Vec<u8>,
    >)
        ensures
            r matches Some(d) ==> spec_sprite_lookup(self.sprites_seq(), player, shade, kind)
                == Some(d@),
            r is None <==> spec_sprite_lookup(self.sprites_seq(), player, shade, kind) is None,
    {
        let n = self.sprites.len();
        let mut i: usize = 0;
        proof {
            assert(self.sprites@.skip(0) =~= self.sprites@);
        }
        while i < n
            invariant
                i <= n,
                n == self.sprites@.len(),
                spec_sprite_lookup(self.sprites@.skip(i as int), player, shade, kind)
                    == spec_sprite_lookup(self.sprites@, player, shade, kind),
            decreases n - i,
        {
            proof {
                assert(self.sprites@.skip(i as int).len() == n - i);
                assert(self.sprites@.skip(i as int)[0] == self.sprites@[i as int]);
                assert(self.sprites@.skip(i as int).drop_first() =~= self.sprites@.skip(i + 1));
            }
            let entry = &self.sprites[i];
            if entry.player == player && entry.shade == shade && entry.kind == kind {
                return Some(&entry.data);
            }
            i = i + 1;
        }
        proof {
            assert(self.sprites@.skip(n as int) =~= Seq::<SpriteAsset>::empty());
        }
        None
    }
}

} // verus!
