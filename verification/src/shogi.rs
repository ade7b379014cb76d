//! Sides, files, ranks and squares.
//!
//! Files run from 1 (right edge) to 9 (left edge), ranks from 1 (top) to 9
//! (bottom), and squares are numbered file-major: `9 * file + rank` over the
//! zero-based indices.  HUM always sits at the bottom (ranks 7 to 9).

use vstd::prelude::*;

verus! {

/// One of the two players.
#[derive(Clone, Copy, Debug, PartialEq, Eq, Structural, Hash, PartialOrd, Ord)]
pub enum Side {
    Hum,
    Com,
}

pub const HUM: Side = Side::Hum;

pub const COM: Side = Side::Com;

impl Side {
    /// Index of the side: 0 for HUM, 1 for COM.
    pub open spec fn index(self) -> int {
        match self {
            Side::Hum => 0,
            Side::Com => 1,
        }
    }

    /// The opposing side, as a specification.
    pub open spec fn opp(self) -> Side {
        match self {
            Side::Hum => Side::Com,
            Side::Com => Side::Hum,
        }
    }

    /// Every value of this type is one of the two sides.
    pub fn is_valid(self) -> (r: bool)
        ensures
            r,
    {
        true
    }

    /// The opposing side.
    pub fn inv(self) -> (r: Side)
        ensures
            r == self.opp(),
            r != self,
    {
        match self {
            Side::Hum => Side::Com,
            Side::Com => Side::Hum,
        }
    }

    /// Both sides in ascending order: HUM, then COM.
    pub fn iter() -> (r: [Side; 2])
        ensures
            r@ =~= seq![Side::Hum, Side::Com],
    {
        [Side::Hum, Side::Com]
    }

    /// The integer value of the side.
    pub fn inner(self) -> (r: u32)
        ensures
            r == self.index(),
    {
        match self {
            Side::Hum => 0,
            Side::Com => 1,
        }
    }
}

/// A file of the board; the inner value is the zero-based index.
#[derive(Clone, Copy, Debug, PartialEq, Eq, Structural, Hash, PartialOrd, Ord)]
pub struct Col(pub i32);

/// A rank of the board; the inner value is the zero-based index.
#[derive(Clone, Copy, Debug, PartialEq, Eq, Structural, Hash, PartialOrd, Ord)]
pub struct Row(pub i32);

/// A square of the board; the inner value is `9 * file + rank`.
#[derive(Clone, Copy, Debug, PartialEq, Eq, Structural, Hash, PartialOrd, Ord)]
pub struct Square(pub i32);

impl Col {
    /// Whether the file lies on the board.
    pub open spec fn on_board(self) -> bool {
        0 <= self.0 <= 8
    }

    /// Builds a file from its inner value, which must lie on the board.
    pub fn from_inner(inner: i32) -> (r: Col)
        requires
            0 <= inner <= 8,
        ensures
            r.0 == inner,
            r.on_board(),
    {
        Col(inner)
    }

    /// Whether the file lies on the board.
    pub fn is_on_board(self) -> (r: bool)
        ensures
            r == self.on_board(),
    {
        0 <= self.0 && self.0 <= 8
    }

    /// All files of the board in ascending order.
    pub fn iter() -> (r: Vec<Col>)
        ensures
            r@.len() == 9,
            forall|i: int| 0 <= i < 9 ==> (#[trigger] r@[i]).0 == i,
    {
        let mut v: Vec<Col> = Vec::new();
        let mut i: i32 = 0;
        while i < 9
            invariant
                0 <= i <= 9,
                v@.len() == i,
                forall|j: int| 0 <= j < i ==> (#[trigger] v@[j]).0 == j,
            decreases 9 - i,
        {
            v.push(Col(i));
            i += 1;
        }
        v
    }

    /// The files from `min` to `max`, both included, in ascending order;
    /// empty when `max` is below `min`.
    pub fn iter_range(min: Col, max: Col) -> (r: Vec<Col>)
        ensures
            r@.len() == (if min.0 <= max.0 { max.0 - min.0 + 1 } else { 0 }),
            forall|i: int| 0 <= i < r@.len() ==> (#[trigger] r@[i]).0 == min.0 + i,
    {
        let mut v: Vec<Col> = Vec::new();
        let mut i: i64 = min.0 as i64;
        let hi: i64 = max.0 as i64;
        while i <= hi
            invariant
                min.0 <= i,
                i <= hi + 1 || (hi < min.0 && i == min.0),
                hi == max.0,
                v@.len() == i - min.0,
                forall|j: int| 0 <= j < v@.len() ==> (#[trigger] v@[j]).0 == min.0 + j,
            decreases hi + 1 - i,
        {
            v.push(Col(i as i32));
            i += 1;
        }
        v
    }

    /// The inner value.
    pub fn inner(self) -> (r: i32)
        ensures
            r == self.0,
    {
        self.0
    }
}

impl Row {
    /// Whether the rank lies on the board.
    pub open spec fn on_board(self) -> bool {
        0 <= self.0 <= 8
    }

    /// Builds a rank from its inner value, which must lie on the board.
    pub fn from_inner(inner: i32) -> (r: Row)
        requires
            0 <= inner <= 8,
        ensures
            r.0 == inner,
            r.on_board(),
    {
        Row(inner)
    }

    /// Whether the rank lies on the board.
    pub fn is_on_board(self) -> (r: bool)
        ensures
            r == self.on_board(),
    {
        0 <= self.0 && self.0 <= 8
    }

    /// All ranks of the board in ascending order.
    pub fn iter() -> (r: Vec<Row>)
        ensures
            r@.len() == 9,
            forall|i: int| 0 <= i < 9 ==> (#[trigger] r@[i]).0 == i,
    {
        let mut v: Vec<Row> = Vec::new();
        let mut i: i32 = 0;
        while i < 9
            invariant
                0 <= i <= 9,
                v@.len() == i,
                forall|j: int| 0 <= j < i ==> (#[trigger] v@[j]).0 == j,
            decreases 9 - i,
        {
            v.push(Row(i));
            i += 1;
        }
        v
    }

    /// The ranks from `min` to `max`, both included, in ascending order;
    /// empty when `max` is below `min`.
    pub fn iter_range(min: Row, max: Row) -> (r: Vec<Row>)
        ensures
            r@.len() == (if min.0 <= max.0 { max.0 - min.0 + 1 } else { 0 }),
            forall|i: int| 0 <= i < r@.len() ==> (#[trigger] r@[i]).0 == min.0 + i,
    {
        let mut v: Vec<Row> = Vec::new();
        let mut i: i64 = min.0 as i64;
        let hi: i64 = max.0 as i64;
        while i <= hi
            invariant
                min.0 <= i,
                i <= hi + 1 || (hi < min.0 && i == min.0),
                hi == max.0,
                v@.len() == i - min.0,
                forall|j: int| 0 <= j < v@.len() ==> (#[trigger] v@[j]).0 == min.0 + j,
            decreases hi + 1 - i,
        {
            v.push(Row(i as i32));
            i += 1;
        }
        v
    }

    /// The inner value.
    pub fn inner(self) -> (r: i32)
        ensures
            r == self.0,
    {
        self.0
    }

    /// Whether the rank belongs to the promotion zone of `side`: ranks 1 to
    /// 3 for HUM, ranks 7 to 9 for COM.
    pub open spec fn in_promotion_zone(self, side: Side) -> bool {
        match side {
            Side::Hum => 0 <= self.0 <= 2,
            Side::Com => 6 <= self.0 <= 8,
        }
    }

    /// Whether the rank belongs to the promotion zone of `side`.
    pub fn is_promotion_zone(self, side: Side) -> (r: bool)
        ensures
            r == self.in_promotion_zone(side),
    {
        match side {
            Side::Hum => 0 <= self.0 && self.0 <= 2,
            Side::Com => 6 <= self.0 && self.0 <= 8,
        }
    }
}

impl Square {
    /// Whether the square lies on the board.
    pub open spec fn on_board(self) -> bool {
        0 <= self.0 <= 80
    }

    /// Builds a square from its inner value, which must lie on the board.
    pub fn from_inner(inner: i32) -> (r: Square)
        requires
            0 <= inner <= 80,
        ensures
            r.0 == inner,
            r.on_board(),
    {
        Square(inner)
    }

    /// Whether the square lies on the board.
    pub fn is_on_board(self) -> (r: bool)
        ensures
            r == self.on_board(),
    {
        0 <= self.0 && self.0 <= 80
    }

    /// All squares of the board in ascending order.
    pub fn iter() -> (r: Vec<Square>)
        ensures
            r@.len() == 81,
            forall|i: int| 0 <= i < 81 ==> (#[trigger] r@[i]).0 == i,
    {
        let mut v: Vec<Square> = Vec::new();
        let mut i: i32 = 0;
        while i < 81
            invariant
                0 <= i <= 81,
                v@.len() == i,
                forall|j: int| 0 <= j < i ==> (#[trigger] v@[j]).0 == j,
            decreases 81 - i,
        {
            v.push(Square(i));
            i += 1;
        }
        v
    }

    /// The squares from `min` to `max`, both included, in ascending order;
    /// empty when `max` is below `min`.
    pub fn iter_range(min: Square, max: Square) -> (r: Vec<Square>)
        ensures
            r@.len() == (if min.0 <= max.0 { max.0 - min.0 + 1 } else { 0 }),
            forall|i: int| 0 <= i < r@.len() ==> (#[trigger] r@[i]).0 == min.0 + i,
    {
        let mut v: Vec<Square> = Vec::new();
        let mut i: i64 = min.0 as i64;
        let hi: i64 = max.0 as i64;
        while i <= hi
            invariant
                min.0 <= i,
                i <= hi + 1 || (hi < min.0 && i == min.0),
                hi == max.0,
                v@.len() == i - min.0,
                forall|j: int| 0 <= j < v@.len() ==> (#[trigger] v@[j]).0 == min.0 + j,
            decreases hi + 1 - i,
        {
            v.push(Square(i as i32));
            i += 1;
        }
        v
    }

    /// The inner value.
    pub fn inner(self) -> (r: i32)
        ensures
            r == self.0,
    {
        self.0
    }

    pub const DIR_R: i32 = -9;

    pub const DIR_U: i32 = -1;

    pub const DIR_D: i32 = 1;

    pub const DIR_L: i32 = 9;

    pub const DIR_RU: i32 = -10;

    pub const DIR_RD: i32 = -8;

    pub const DIR_LU: i32 = 8;

    pub const DIR_LD: i32 = 10;

    pub const DIR_RUU: i32 = -11;

    pub const DIR_RDD: i32 = -7;

    pub const DIR_LUU: i32 = 7;

    pub const DIR_LDD: i32 = 11;

    /// The square at zero-based file `c` and rank `r`.
    pub open spec fn at(c: int, r: int) -> Square {
        Square((9 * c + r) as i32)
    }

    /// Zero-based file index of an on-board square.
    pub open spec fn c(self) -> int {
        self.0 as int / 9
    }

    /// Zero-based rank index of an on-board square.
    pub open spec fn r(self) -> int {
        self.0 as int % 9
    }

    /// Chebyshev distance between two squares.
    pub open spec fn dist(self, other: Square) -> int {
        let dx = if self.c() >= other.c() { self.c() - other.c() } else { other.c() - self.c() };
        let dy = if self.r() >= other.r() { self.r() - other.r() } else { other.r() - self.r() };
        if dx < dy { dy } else { dx }
    }

    /// The square on file `col` and rank `row`.
    pub fn from_col_row(col: Col, row: Row) -> (r: Square)
        requires
            i32::MIN <= 9 * col.0 + row.0 <= i32::MAX,
        ensures
            r.0 == 9 * col.0 + row.0,
            col.on_board() && row.on_board() ==> r.on_board() && r.c() == col.0 && r.r() == row.0,
    {
        let c: i64 = col.0 as i64;
        let v: i64 = 9 * c + row.0 as i64;
        Square(v as i32)
    }

    /// The file of an on-board square.
    pub fn col(self) -> (r: Col)
        requires
            self.on_board(),
        ensures
            r.0 == self.c(),
            r.on_board(),
    {
        Col(self.0 / 9)
    }

    /// The rank of an on-board square.
    pub fn row(self) -> (r: Row)
        requires
            self.on_board(),
        ensures
            r.0 == self.r(),
            r.on_board(),
    {
        Row(self.0 % 9)
    }

    /// Chebyshev distance between two squares, as a byte.
    pub open spec fn dist8(self, other: Square) -> u8 {
        self.dist(other) as u8
    }

    /// Chebyshev distance between two on-board squares.
    #[verifier::when_used_as_spec(dist8)]
    pub fn distance(self, other: Square) -> (r: u8)
        requires
            self.on_board(),
            other.on_board(),
        ensures
            r == self.dist(other),
            r == self.dist8(other),
            r <= 8,
    {
        let c1: i32 = self.0 / 9;
        let c2: i32 = other.0 / 9;
        let r1: i32 = self.0 % 9;
        let r2: i32 = other.0 % 9;
        let dx: i32 = if c1 >= c2 { c1 - c2 } else { c2 - c1 };
        let dy: i32 = if r1 >= r2 { r1 - r2 } else { r2 - r1 };
        if dx < dy { dy as u8 } else { dx as u8 }
    }

    /// Whether an on-board square belongs to the promotion zone of `side`.
    pub fn is_promotion_zone(self, side: Side) -> (r: bool)
        requires
            self.on_board(),
        ensures
            r == Row(self.r() as i32).in_promotion_zone(side),
    {
        self.row().is_promotion_zone(side)
    }
}

#[allow(non_snake_case)]
pub fn COL_1() -> (r: Col)
    ensures
        r == Col(0),
{
    Col(0)
}

#[allow(non_snake_case)]
pub fn COL_2() -> (r: Col)
    ensures
        r == Col(1),
{
    Col(1)
}

#[allow(non_snake_case)]
pub fn COL_3() -> (r: Col)
    ensures
        r == Col(2),
{
    Col(2)
}

#[allow(non_snake_case)]
pub fn COL_4() -> (r: Col)
    ensures
        r == Col(3),
{
    Col(3)
}

#[allow(non_snake_case)]
pub fn COL_5() -> (r: Col)
    ensures
        r == Col(4),
{
    Col(4)
}

#[allow(non_snake_case)]
pub fn COL_6() -> (r: Col)
    ensures
        r == Col(5),
{
    Col(5)
}

#[allow(non_snake_case)]
pub fn COL_7() -> (r: Col)
    ensures
        r == Col(6),
{
    Col(6)
}

#[allow(non_snake_case)]
pub fn COL_8() -> (r: Col)
    ensures
        r == Col(7),
{
    Col(7)
}

#[allow(non_snake_case)]
pub fn COL_9() -> (r: Col)
    ensures
        r == Col(8),
{
    Col(8)
}

#[allow(non_snake_case)]
pub fn ROW_1() -> (r: Row)
    ensures
        r == Row(0),
{
    Row(0)
}

#[allow(non_snake_case)]
pub fn ROW_2() -> (r: Row)
    ensures
        r == Row(1),
{
    Row(1)
}

#[allow(non_snake_case)]
pub fn ROW_3() -> (r: Row)
    ensures
        r == Row(2),
{
    Row(2)
}

#[allow(non_snake_case)]
pub fn ROW_4() -> (r: Row)
    ensures
        r == Row(3),
{
    Row(3)
}

#[allow(non_snake_case)]
pub fn ROW_5() -> (r: Row)
    ensures
        r == Row(4),
{
    Row(4)
}

#[allow(non_snake_case)]
pub fn ROW_6() -> (r: Row)
    ensures
        r == Row(5),
{
    Row(5)
}

#[allow(non_snake_case)]
pub fn ROW_7() -> (r: Row)
    ensures
        r == Row(6),
{
    Row(6)
}

#[allow(non_snake_case)]
pub fn ROW_8() -> (r: Row)
    ensures
        r == Row(7),
{
    Row(7)
}

#[allow(non_snake_case)]
pub fn ROW_9() -> (r: Row)
    ensures
        r == Row(8),
{
    Row(8)
}

#[allow(non_snake_case)]
pub fn SQ_11() -> (r: Square)
    ensures
        r == Square(0),
{
    Square(0)
}

#[allow(non_snake_case)]
pub fn SQ_12() -> (r: Square)
    ensures
        r == Square(1),
{
    Square(1)
}

#[allow(non_snake_case)]
pub fn SQ_13() -> (r: Square)
    ensures
        r == Square(2),
{
    Square(2)
}

#[allow(non_snake_case)]
pub fn SQ_14() -> (r: Square)
    ensures
        r == Square(3),
{
    Square(3)
}

#[allow(non_snake_case)]
pub fn SQ_15() -> (r: Square)
    ensures
        r == Square(4),
{
    Square(4)
}

#[allow(non_snake_case)]
pub fn SQ_16() -> (r: Square)
    ensures
        r == Square(5),
{
    Square(5)
}

#[allow(non_snake_case)]
pub fn SQ_17() -> (r: Square)
    ensures
        r == Square(6),
{
    Square(6)
}

#[allow(non_snake_case)]
pub fn SQ_18() -> (r: Square)
    ensures
        r == Square(7),
{
    Square(7)
}

#[allow(non_snake_case)]
pub fn SQ_19() -> (r: Square)
    ensures
        r == Square(8),
{
    Square(8)
}

#[allow(non_snake_case)]
pub fn SQ_21() -> (r: Square)
    ensures
        r == Square(9),
{
    Square(9)
}

#[allow(non_snake_case)]
pub fn SQ_22() -> (r: Square)
    ensures
        r == Square(10),
{
    Square(10)
}

#[allow(non_snake_case)]
pub fn SQ_23() -> (r: Square)
    ensures
        r == Square(11),
{
    Square(11)
}

#[allow(non_snake_case)]
pub fn SQ_24() -> (r: Square)
    ensures
        r == Square(12),
{
    Square(12)
}

#[allow(non_snake_case)]
pub fn SQ_25() -> (r: Square)
    ensures
        r == Square(13),
{
    Square(13)
}

#[allow(non_snake_case)]
pub fn SQ_26() -> (r: Square)
    ensures
        r == Square(14),
{
    Square(14)
}

#[allow(non_snake_case)]
pub fn SQ_27() -> (r: Square)
    ensures
        r == Square(15),
{
    Square(15)
}

#[allow(non_snake_case)]
pub fn SQ_28() -> (r: Square)
    ensures
        r == Square(16),
{
    Square(16)
}

#[allow(non_snake_case)]
pub fn SQ_29() -> (r: Square)
    ensures
        r == Square(17),
{
    Square(17)
}

#[allow(non_snake_case)]
pub fn SQ_31() -> (r: Square)
    ensures
        r == Square(18),
{
    Square(18)
}

#[allow(non_snake_case)]
pub fn SQ_32() -> (r: Square)
    ensures
        r == Square(19),
{
    Square(19)
}

#[allow(non_snake_case)]
pub fn SQ_33() -> (r: Square)
    ensures
        r == Square(20),
{
    Square(20)
}

#[allow(non_snake_case)]
pub fn SQ_34() -> (r: Square)
    ensures
        r == Square(21),
{
    Square(21)
}

#[allow(non_snake_case)]
pub fn SQ_35() -> (r: Square)
    ensures
        r == Square(22),
{
    Square(22)
}

#[allow(non_snake_case)]
pub fn SQ_36() -> (r: Square)
    ensures
        r == Square(23),
{
    Square(23)
}

#[allow(non_snake_case)]
pub fn SQ_37() -> (r: Square)
    ensures
        r == Square(24),
{
    Square(24)
}

#[allow(non_snake_case)]
pub fn SQ_38() -> (r: Square)
    ensures
        r == Square(25),
{
    Square(25)
}

#[allow(non_snake_case)]
pub fn SQ_39() -> (r: Square)
    ensures
        r == Square(26),
{
    Square(26)
}

#[allow(non_snake_case)]
pub fn SQ_41() -> (r: Square)
    ensures
        r == Square(27),
{
    Square(27)
}

#[allow(non_snake_case)]
pub fn SQ_42() -> (r: Square)
    ensures
        r == Square(28),
{
    Square(28)
}

#[allow(non_snake_case)]
pub fn SQ_43() -> (r: Square)
    ensures
        r == Square(29),
{
    Square(29)
}

#[allow(non_snake_case)]
pub fn SQ_44() -> (r: Square)
    ensures
        r == Square(30),
{
    Square(30)
}

#[allow(non_snake_case)]
pub fn SQ_45() -> (r: Square)
    ensures
        r == Square(31),
{
    Square(31)
}

#[allow(non_snake_case)]
pub fn SQ_46() -> (r: Square)
    ensures
        r == Square(32),
{
    Square(32)
}

#[allow(non_snake_case)]
pub fn SQ_47() -> (r: Square)
    ensures
        r == Square(33),
{
    Square(33)
}

#[allow(non_snake_case)]
pub fn SQ_48() -> (r: Square)
    ensures
        r == Square(34),
{
    Square(34)
}

#[allow(non_snake_case)]
pub fn SQ_49() -> (r: Square)
    ensures
        r == Square(35),
{
    Square(35)
}

#[allow(non_snake_case)]
pub fn SQ_51() -> (r: Square)
    ensures
        r == Square(36),
{
    Square(36)
}

#[allow(non_snake_case)]
pub fn SQ_52() -> (r: Square)
    ensures
        r == Square(37),
{
    Square(37)
}

#[allow(non_snake_case)]
pub fn SQ_53() -> (r: Square)
    ensures
        r == Square(38),
{
    Square(38)
}

#[allow(non_snake_case)]
pub fn SQ_54() -> (r: Square)
    ensures
        r == Square(39),
{
    Square(39)
}

#[allow(non_snake_case)]
pub fn SQ_55() -> (r: Square)
    ensures
        r == Square(40),
{
    Square(40)
}

#[allow(non_snake_case)]
pub fn SQ_56() -> (r: Square)
    ensures
        r == Square(41),
{
    Square(41)
}

#[allow(non_snake_case)]
pub fn SQ_57() -> (r: Square)
    ensures
        r == Square(42),
{
    Square(42)
}

#[allow(non_snake_case)]
pub fn SQ_58() -> (r: Square)
    ensures
        r == Square(43),
{
    Square(43)
}

#[allow(non_snake_case)]
pub fn SQ_59() -> (r: Square)
    ensures
        r == Square(44),
{
    Square(44)
}

#[allow(non_snake_case)]
pub fn SQ_61() -> (r: Square)
    ensures
        r == Square(45),
{
    Square(45)
}

#[allow(non_snake_case)]
pub fn SQ_62() -> (r: Square)
    ensures
        r == Square(46),
{
    Square(46)
}

#[allow(non_snake_case)]
pub fn SQ_63() -> (r: Square)
    ensures
        r == Square(47),
{
    Square(47)
}

#[allow(non_snake_case)]
pub fn SQ_64() -> (r: Square)
    ensures
        r == Square(48),
{
    Square(48)
}

#[allow(non_snake_case)]
pub fn SQ_65() -> (r: Square)
    ensures
        r == Square(49),
{
    Square(49)
}

#[allow(non_snake_case)]
pub fn SQ_66() -> (r: Square)
    ensures
        r == Square(50),
{
    Square(50)
}

#[allow(non_snake_case)]
pub fn SQ_67() -> (r: Square)
    ensures
        r == Square(51),
{
    Square(51)
}

#[allow(non_snake_case)]
pub fn SQ_68() -> (r: Square)
    ensures
        r == Square(52),
{
    Square(52)
}

#[allow(non_snake_case)]
pub fn SQ_69() -> (r: Square)
    ensures
        r == Square(53),
{
    Square(53)
}

#[allow(non_snake_case)]
pub fn SQ_71() -> (r: Square)
    ensures
        r == Square(54),
{
    Square(54)
}

#[allow(non_snake_case)]
pub fn SQ_72() -> (r: Square)
    ensures
        r == Square(55),
{
    Square(55)
}

#[allow(non_snake_case)]
pub fn SQ_73() -> (r: Square)
    ensures
        r == Square(56),
{
    Square(56)
}

#[allow(non_snake_case)]
pub fn SQ_74() -> (r: Square)
    ensures
        r == Square(57),
{
    Square(57)
}

#[allow(non_snake_case)]
pub fn SQ_75() -> (r: Square)
    ensures
        r == Square(58),
{
    Square(58)
}

#[allow(non_snake_case)]
pub fn SQ_76() -> (r: Square)
    ensures
        r == Square(59),
{
    Square(59)
}

#[allow(non_snake_case)]
pub fn SQ_77() -> (r: Square)
    ensures
        r == Square(60),
{
    Square(60)
}

#[allow(non_snake_case)]
pub fn SQ_78() -> (r: Square)
    ensures
        r == Square(61),
{
    Square(61)
}

#[allow(non_snake_case)]
pub fn SQ_79() -> (r: Square)
    ensures
        r == Square(62),
{
    Square(62)
}

#[allow(non_snake_case)]
pub fn SQ_81() -> (r: Square)
    ensures
        r == Square(63),
{
    Square(63)
}

#[allow(non_snake_case)]
pub fn SQ_82() -> (r: Square)
    ensures
        r == Square(64),
{
    Square(64)
}

#[allow(non_snake_case)]
pub fn SQ_83() -> (r: Square)
    ensures
        r == Square(65),
{
    Square(65)
}

#[allow(non_snake_case)]
pub fn SQ_84() -> (r: Square)
    ensures
        r == Square(66),
{
    Square(66)
}

#[allow(non_snake_case)]
pub fn SQ_85() -> (r: Square)
    ensures
        r == Square(67),
{
    Square(67)
}

#[allow(non_snake_case)]
pub fn SQ_86() -> (r: Square)
    ensures
        r == Square(68),
{
    Square(68)
}

#[allow(non_snake_case)]
pub fn SQ_87() -> (r: Square)
    ensures
        r == Square(69),
{
    Square(69)
}

#[allow(non_snake_case)]
pub fn SQ_88() -> (r: Square)
    ensures
        r == Square(70),
{
    Square(70)
}

#[allow(non_snake_case)]
pub fn SQ_89() -> (r: Square)
    ensures
        r == Square(71),
{
    Square(71)
}

#[allow(non_snake_case)]
pub fn SQ_91() -> (r: Square)
    ensures
        r == Square(72),
{
    Square(72)
}

#[allow(non_snake_case)]
pub fn SQ_92() -> (r: Square)
    ensures
        r == Square(73),
{
    Square(73)
}

#[allow(non_snake_case)]
pub fn SQ_93() -> (r: Square)
    ensures
        r == Square(74),
{
    Square(74)
}

#[allow(non_snake_case)]
pub fn SQ_94() -> (r: Square)
    ensures
        r == Square(75),
{
    Square(75)
}

#[allow(non_snake_case)]
pub fn SQ_95() -> (r: Square)
    ensures
        r == Square(76),
{
    Square(76)
}

#[allow(non_snake_case)]
pub fn SQ_96() -> (r: Square)
    ensures
        r == Square(77),
{
    Square(77)
}

#[allow(non_snake_case)]
pub fn SQ_97() -> (r: Square)
    ensures
        r == Square(78),
{
    Square(78)
}

#[allow(non_snake_case)]
pub fn SQ_98() -> (r: Square)
    ensures
        r == Square(79),
{
    Square(79)
}

#[allow(non_snake_case)]
pub fn SQ_99() -> (r: Square)
    ensures
        r == Square(80),
{
    Square(80)
}

} // verus!
