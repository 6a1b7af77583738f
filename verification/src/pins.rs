//! Allocation of the GPIO pins.
//!
//! Each module claims its pins by number. A pin that has an owner cannot be claimed
//! again until it is released.

use crate::text;
use vstd::prelude::*;

verus! {

/// Number of GPIO pins.
pub const GPIO_COUNT: usize = 49;

/// Why a pin cannot be had.
#[derive(Debug, Clone, PartialEq, Eq)]
pub enum PinError {
    /// It has an owner.
    AlreadyInUse {
        /// The pin.
        pin: i32,
        /// Its owner.
        owner: &'static str,
    },
    /// There is no such pin, or it has been handed out.
    NotAvailable {
        /// The pin.
        pin: i32,
    },
}

impl PinError {
    /// The message for an error.
    pub open spec fn text(self) -> Seq<char> {
        match self {
            PinError::AlreadyInUse { pin, owner } => "GPIO"@ + text::signed_dec(pin as int)
                + " already allocated by "@ + owner@,
            PinError::NotAvailable { pin } => "GPIO"@ + text::signed_dec(pin as int)
                + " not available on this board"@,
        }
    }

    /// Write the message for an error.
    pub fn message(&self) -> (r: String)
        ensures
            r@ == self.text(),
    {
        let mut out = "GPIO".to_owned();
        match self {
            PinError::AlreadyInUse { pin, owner } => {
                text::push_signed_dec(&mut out, *pin as i64);
                out.append(" already allocated by ");
                out.append(owner);
            },
            PinError::NotAvailable { pin } => {
                text::push_signed_dec(&mut out, *pin as i64);
                out.append(" not available on this board");
            },
        }
        out
    }
}

/// Which pins have an owner.
#[derive(Debug)]
pub struct PinRegistry {
    owners: [Option<&'static str>; GPIO_COUNT],
}

impl View for PinRegistry {
    type V = Seq<Option<&'static str>>;

    closed spec fn view(&self) -> Seq<Option<&'static str>> {
        self.owners@
    }
}

/// Whether there is a pin of this number.
pub open spec fn pin_exists(pin: i32) -> bool {
    0 <= pin < GPIO_COUNT
}

impl Default for PinRegistry {
    fn default() -> (r: Self)
        ensures
            r@ == Seq::new(GPIO_COUNT as nat, |i: int| None::<&'static str>),
    {
        let r = PinRegistry { owners: [None; GPIO_COUNT] };
        assert(r@ == Seq::new(GPIO_COUNT as nat, |i: int| None::<&'static str>));
        r
    }
}

impl PinRegistry {
    /// There is a place for every pin.
    pub open spec fn wf(&self) -> bool {
        self@.len() == GPIO_COUNT
    }

    /// What a claim answers, and what it does to the owners.
    pub open spec fn claim_step(
        self,
        pin: i32,
        owner: &'static str,
        r: Result<(), PinError>,
        after: PinRegistry,
    ) -> bool {
        if !pin_exists(pin) {
            r == Err::<(), PinError>(PinError::NotAvailable { pin }) && after@ == self@
        } else {
            match self@[pin as int] {
                Some(existing) => r == Err::<(), PinError>(
                    PinError::AlreadyInUse { pin, owner: existing },
                ) && after@ == self@,
                None => r is Ok && after@ == self@.update(pin as int, Some(owner)),
            }
        }
    }

    /// A registry in which no pin has an owner.
    pub fn new() -> (r: Self)
        ensures
            r.wf(),
            r@ == Seq::new(GPIO_COUNT as nat, |i: int| None::<&'static str>),
    {
        Self::default()
    }

    /// Claim a pin for an owner.
    pub fn claim(&mut self, pin: i32, owner: &'static str) -> (r: Result<(), PinError>)
        requires
            old(self).wf(),
        ensures
            final(self).wf(),
            old(self).claim_step(pin, owner, r, *final(self)),
    {
        if pin < 0 || pin as usize >= GPIO_COUNT {
            return Err(PinError::NotAvailable { pin });
        }
        let slot: usize = pin as usize;
        if let Some(existing) = self.owners[slot] {
            return Err(PinError::AlreadyInUse { pin, owner: existing });
        }
        self.owners[slot] = Some(owner);
        Ok(())
    }

    /// Release a pin. Pins that do not exist or have no owner are left alone.
    pub fn release(&mut self, pin: i32)
        requires
            old(self).wf(),
        ensures
            final(self).wf(),
            final(self)@ == if pin_exists(pin) {
                old(self)@.update(pin as int, None)
            } else {
                old(self)@
            },
    {
        if pin >= 0 && (pin as usize) < GPIO_COUNT {
            self.owners[pin as usize] = None;
        }
    }

    /// The owner of a pin, if it has one.
    pub fn owner(&self, pin: i32) -> (r: Option<&'static str>)
        requires
            self.wf(),
        ensures
            r == if pin_exists(pin) {
                self@[pin as int]
            } else {
                None
            },
    {
        if pin >= 0 && (pin as usize) < GPIO_COUNT {
            self.owners[pin as usize]
        } else {
            None
        }
    }
}

/// Whether the board brings out a pin.
pub open spec fn on_board(pin: i32) -> bool {
    pin == 0 || pin == 1 || pin == 2 || pin == 7 || pin == 10 || pin == 12 || pin == 21 || pin == 33 || pin == 35 || pin == 36 || pin == 37 || pin == 39 || pin == 40 || pin == 41 || pin == 42 || pin == 45
}

/// What taking a row of pins one after the other answers, and what it does to the
/// owners and to the pins that are here. It stops at the first pin that cannot be had;
/// those before it stay taken.
pub open spec fn take_row(
    owners: Seq<Option<&'static str>>,
    available: Seq<bool>,
    row: Seq<i32>,
    owner: &'static str,
) -> (Option<PinError>, Seq<Option<&'static str>>, Seq<bool>)
    decreases row.len(),
{
    if row.len() == 0 {
        (None, owners, available)
    } else {
        let pin = row[0];
        match owners[pin as int] {
            Some(existing) => (
                Some(PinError::AlreadyInUse { pin, owner: existing }),
                owners,
                available,
            ),
            None => if available[pin as int] {
                take_row(
                    owners.update(pin as int, Some(owner)),
                    available.update(pin as int, false),
                    row.skip(1),
                    owner,
                )
            } else {
                (Some(PinError::NotAvailable { pin }), owners, available)
            },
        }
    }
}

/// The pins of the board: their owners, and which of them are still here to be
/// handed out.
pub struct PinPool {
    registry: PinRegistry,
    here: [bool; GPIO_COUNT],
}

impl PinPool {
    /// There is a place for every pin.
    pub closed spec fn wf(&self) -> bool {
        self.registry.wf()
    }

    /// The owners of the pins.
    pub closed spec fn owners(&self) -> Seq<Option<&'static str>> {
        self.registry@
    }

    /// Which pins are still here to be handed out.
    pub closed spec fn available(&self) -> Seq<bool> {
        self.here@
    }

    /// What taking a pin answers, and what it does to the pool.
    ///
    /// A pin with an owner is in use. A pin that has been handed out before is not
    /// available, even if it was released. Otherwise the pin gets its owner and is
    /// handed out.
    pub open spec fn take_step(
        self,
        pin: i32,
        owner: &'static str,
        r: Result<(), PinError>,
        after: PinPool,
    ) -> bool {
        match self.owners()[pin as int] {
            Some(existing) => {
                &&& r == Err::<(), PinError>(PinError::AlreadyInUse { pin, owner: existing })
                &&& after.owners() == self.owners()
                &&& after.available() == self.available()
            },
            None => if self.available()[pin as int] {
                &&& r is Ok
                &&& after.owners() == self.owners().update(pin as int, Some(owner))
                &&& after.available() == self.available().update(pin as int, false)
            } else {
                &&& r == Err::<(), PinError>(PinError::NotAvailable { pin })
                &&& after.owners() == self.owners()
                &&& after.available() == self.available()
            },
        }
    }

    /// There is a place for every pin.
    pub proof fn lemma_places(&self)
        requires
            self.wf(),
        ensures
            self.owners().len() == GPIO_COUNT,
            self.available().len() == GPIO_COUNT,
    {
    }

    /// A pool in which every pin of the board is here and none has an owner.
    pub fn from_board_pins() -> (r: Self)
        ensures
            r.wf(),
            r.owners() == Seq::new(GPIO_COUNT as nat, |i: int| None::<&'static str>),
            r.available() == Seq::new(GPIO_COUNT as nat, |i: int| on_board(i as i32)),
    {
        let mut here: [bool; GPIO_COUNT] = [false; GPIO_COUNT];
        here[0] = true;
        here[1] = true;
        here[2] = true;
        here[7] = true;
        here[10] = true;
        here[12] = true;
        here[21] = true;
        here[33] = true;
        here[35] = true;
        here[36] = true;
        here[37] = true;
        here[39] = true;
        here[40] = true;
        here[41] = true;
        here[42] = true;
        here[45] = true;
        assert(here@ == Seq::new(GPIO_COUNT as nat, |i: int| on_board(i as i32)));
        PinPool { registry: PinRegistry::new(), here }
    }

    /// The owners of the pins.
    pub fn registry(&self) -> (r: &PinRegistry)
        requires
            self.wf(),
        ensures
            r@ == self.owners(),
            r.wf(),
    {
        &self.registry
    }

    /// Release a pin. It loses its owner but is not handed out again.
    pub fn release(&mut self, pin: i32)
        requires
            old(self).wf(),
        ensures
            final(self).wf(),
            final(self).owners() == if pin_exists(pin) {
                old(self).owners().update(pin as int, None)
            } else {
                old(self).owners()
            },
            final(self).available() == old(self).available(),
    {
        self.registry.release(pin);
    }

    /// Take a pin: claim it, and hand it out if it is here.
    fn take(&mut self, pin: i32, owner: &'static str) -> (r: Result<(), PinError>)
        requires
            old(self).wf(),
            pin_exists(pin),
        ensures
            final(self).wf(),
            old(self).take_step(pin, owner, r, *final(self)),
    {
        match self.registry.claim(pin, owner) {
            Err(e) => Err(e),
            Ok(()) => {
                if self.here[pin as usize] {
                    self.here[pin as usize] = false;
                    Ok(())
                } else {
                    self.registry.release(pin);
                    assert(self.owners() == old(self).owners());
                    Err(PinError::NotAvailable { pin })
                }
            },
        }
    }

    /// Take GPIO 0, the page button.
    pub fn take_gpio0(&mut self, owner: &'static str) -> (r: Result<(), PinError>)
        requires
            old(self).wf(),
        ensures
            final(self).wf(),
            old(self).take_step(0, owner, r, *final(self)),
    {
        self.take(0, owner)
    }

    /// Take GPIO 1, the GPS transmit line.
    pub fn take_gpio1(&mut self, owner: &'static str) -> (r: Result<(), PinError>)
        requires
            old(self).wf(),
        ensures
            final(self).wf(),
            old(self).take_step(1, owner, r, *final(self)),
    {
        self.take(1, owner)
    }

    /// Take GPIO 2, the GPS receive line.
    pub fn take_gpio2(&mut self, owner: &'static str) -> (r: Result<(), PinError>)
        requires
            old(self).wf(),
        ensures
            final(self).wf(),
            old(self).take_step(2, owner, r, *final(self)),
    {
        self.take(2, owner)
    }

    /// Take GPIO 7, the display chip select.
    pub fn take_gpio7(&mut self, owner: &'static str) -> (r: Result<(), PinError>)
        requires
            old(self).wf(),
        ensures
            final(self).wf(),
            old(self).take_step(7, owner, r, *final(self)),
    {
        self.take(7, owner)
    }

    /// Take GPIO 10, the SD card chip select.
    pub fn take_gpio10(&mut self, owner: &'static str) -> (r: Result<(), PinError>)
        requires
            old(self).wf(),
        ensures
            final(self).wf(),
            old(self).take_step(10, owner, r, *final(self)),
    {
        self.take(10, owner)
    }

    /// Take GPIO 12, the PPS input.
    pub fn take_gpio12(&mut self, owner: &'static str) -> (r: Result<(), PinError>)
        requires
            old(self).wf(),
        ensures
            final(self).wf(),
            old(self).take_step(12, owner, r, *final(self)),
    {
        self.take(12, owner)
    }

    /// Take GPIO 21, the display power.
    pub fn take_gpio21(&mut self, owner: &'static str) -> (r: Result<(), PinError>)
        requires
            old(self).wf(),
        ensures
            final(self).wf(),
            old(self).take_step(21, owner, r, *final(self)),
    {
        self.take(21, owner)
    }

    /// Take GPIO 33, the second SD card chip select.
    pub fn take_gpio33(&mut self, owner: &'static str) -> (r: Result<(), PinError>)
        requires
            old(self).wf(),
        ensures
            final(self).wf(),
            old(self).take_step(33, owner, r, *final(self)),
    {
        self.take(33, owner)
    }

    /// Take GPIO 35, the SPI data out.
    pub fn take_gpio35(&mut self, owner: &'static str) -> (r: Result<(), PinError>)
        requires
            old(self).wf(),
        ensures
            final(self).wf(),
            old(self).take_step(35, owner, r, *final(self)),
    {
        self.take(35, owner)
    }

    /// Take GPIO 36, the SPI clock.
    pub fn take_gpio36(&mut self, owner: &'static str) -> (r: Result<(), PinError>)
        requires
            old(self).wf(),
        ensures
            final(self).wf(),
            old(self).take_step(36, owner, r, *final(self)),
    {
        self.take(36, owner)
    }

    /// Take GPIO 37, the SPI data in.
    pub fn take_gpio37(&mut self, owner: &'static str) -> (r: Result<(), PinError>)
        requires
            old(self).wf(),
        ensures
            final(self).wf(),
            old(self).take_step(37, owner, r, *final(self)),
    {
        self.take(37, owner)
    }

    /// Take GPIO 39, the display data/command select.
    pub fn take_gpio39(&mut self, owner: &'static str) -> (r: Result<(), PinError>)
        requires
            old(self).wf(),
        ensures
            final(self).wf(),
            old(self).take_step(39, owner, r, *final(self)),
    {
        self.take(39, owner)
    }

    /// Take GPIO 40, the display reset.
    pub fn take_gpio40(&mut self, owner: &'static str) -> (r: Result<(), PinError>)
        requires
            old(self).wf(),
        ensures
            final(self).wf(),
            old(self).take_step(40, owner, r, *final(self)),
    {
        self.take(40, owner)
    }

    /// Take GPIO 41, the I2C clock.
    pub fn take_gpio41(&mut self, owner: &'static str) -> (r: Result<(), PinError>)
        requires
            old(self).wf(),
        ensures
            final(self).wf(),
            old(self).take_step(41, owner, r, *final(self)),
    {
        self.take(41, owner)
    }

    /// Take GPIO 42, the I2C data.
    pub fn take_gpio42(&mut self, owner: &'static str) -> (r: Result<(), PinError>)
        requires
            old(self).wf(),
        ensures
            final(self).wf(),
            old(self).take_step(42, owner, r, *final(self)),
    {
        self.take(42, owner)
    }

    /// Take GPIO 45, the display backlight.
    pub fn take_gpio45(&mut self, owner: &'static str) -> (r: Result<(), PinError>)
        requires
            old(self).wf(),
        ensures
            final(self).wf(),
            old(self).take_step(45, owner, r, *final(self)),
    {
        self.take(45, owner)
    }
}

/// A pin that has been claimed cannot be claimed again, by whomever, and the error
/// names the one who has it.
pub proof fn law_claimed_pin_is_in_use(
    start: PinRegistry,
    pin: i32,
    owner: &'static str,
    claimed: PinRegistry,
    other: &'static str,
    r: Result<(), PinError>,
    end: PinRegistry,
)
    requires
        start.wf(),
        start.claim_step(pin, owner, Ok(()), claimed),
        claimed.claim_step(pin, other, r, end),
    ensures
        r == Err::<(), PinError>(PinError::AlreadyInUse { pin, owner }),
        end@ == claimed@,
{
}

/// A pin that has been released can be claimed.
pub proof fn law_released_pin_can_be_claimed(
    released: PinRegistry,
    before: Seq<Option<&'static str>>,
    pin: i32,
    owner: &'static str,
    r: Result<(), PinError>,
    end: PinRegistry,
)
    requires
        pin_exists(pin),
        before.len() == GPIO_COUNT,
        released@ == before.update(pin as int, None),
        released.claim_step(pin, owner, r, end),
    ensures
        r is Ok,
        end@[pin as int] == Some(owner),
{
}

/// Claiming a pin leaves the owners of all other pins as they are.
pub proof fn law_other_pins_unaffected(
    before: PinRegistry,
    pin: i32,
    owner: &'static str,
    r: Result<(), PinError>,
    after: PinRegistry,
    other: int,
)
    requires
        before.wf(),
        before.claim_step(pin, owner, r, after),
        0 <= other < GPIO_COUNT,
        other != pin,
    ensures
        after@[other] == before@[other],
{
}

/// A pin of the pool is handed out once: after it was taken, it cannot be taken
/// again, even if it was released in between.
pub proof fn law_pin_is_handed_out_once(
    start: PinPool,
    pin: i32,
    owner: &'static str,
    taken: PinPool,
    later: PinPool,
    other: &'static str,
    r: Result<(), PinError>,
    end: PinPool,
)
    requires
        pin_exists(pin),
        start.available().len() == GPIO_COUNT,
        start.take_step(pin, owner, Ok(()), taken),
        later.available() == taken.available(),
        later.take_step(pin, other, r, end),
    ensures
        r is Err,
{
}

/// The pins are numbered from 0 to 48.
pub proof fn law_numbers_of_pins(pin: i32)
    ensures
        pin_exists(pin) <==> 0 <= pin <= 48,
{
}

/// The board brings out the pins of the display, the card, the receiver, its pulses and
/// the bus of the clock and the gauge, and no others.
pub proof fn law_pins_of_the_board(pin: i32)
    ensures
        on_board(pin) <==> {
            ||| crate::display::is_bus_pin(pin as int)
            ||| crate::display::is_panel_pin(pin as int)
            ||| pin == crate::storage::ADALOGGER_SD_CS_PIN
            ||| pin == crate::storage::ADALOGGER_SD_CS_ALT_PIN
            ||| pin == crate::gps::UART_TX_PIN
            ||| pin == crate::gps::UART_RX_PIN
            ||| pin == crate::pps::GPIO_PIN
            ||| pin == 41
            ||| pin == 42
        },
        on_board(pin) ==> pin_exists(pin),
{
}

/// What taking a pin does: a pin without an owner that is here goes to the one who takes
/// it, one with an owner stays with its owner, and one that was handed out is not
/// available. Other pins are not touched.
pub proof fn law_taking_a_pin(
    start: PinPool,
    pin: i32,
    owner: &'static str,
    r: Result<(), PinError>,
    end: PinPool,
    other: int,
)
    requires
        0 <= pin <= 48,
        0 <= other <= 48,
        start.owners().len() == 49,
        start.available().len() == 49,
        start.take_step(pin, owner, r, end),
    ensures
        r is Ok <==> start.owners()[pin as int] is None && start.available()[pin as int],
        r is Ok ==> end.owners()[pin as int] == Some(owner) && !end.available()[pin as int],
        r matches Err(PinError::AlreadyInUse { pin: p, owner: o }) ==> p == pin && Some(o)
            == start.owners()[pin as int],
        r matches Err(PinError::NotAvailable { pin: p }) ==> p == pin
            && !start.available()[pin as int] && start.owners()[pin as int] is None,
        r is Err || other != pin ==> end.owners()[other] == start.owners()[other]
            && end.available()[other] == start.available()[other],
{
}

/// What taking a row of pins does: if none of them has an owner and all are here, all of
/// them go to the one who takes them. Otherwise the error names a pin of the row that has
/// an owner or is not here. Pins outside the row are not touched.
pub proof fn law_taking_a_row(
    owners: Seq<Option<&'static str>>,
    available: Seq<bool>,
    row: Seq<i32>,
    owner: &'static str,
)
    requires
        owners.len() == 49,
        available.len() == 49,
        forall|k: int| 0 <= k < row.len() ==> 0 <= #[trigger] row[k] <= 48,
        forall|j: int, k: int| 0 <= j < k < row.len() ==> row[j] != row[k],
    ensures
        ({
            let taken = take_row(owners, available, row, owner);
            &&& taken.1.len() == 49
            &&& taken.2.len() == 49
            &&& taken.0 is None <==> forall|k: int|
                0 <= k < row.len() ==> owners[#[trigger] row[k] as int] is None
                    && available[row[k] as int]
            &&& taken.0 is None ==> forall|k: int|
                0 <= k < row.len() ==> taken.1[#[trigger] row[k] as int] == Some(owner)
                    && !taken.2[row[k] as int]
            &&& taken.0 matches Some(PinError::AlreadyInUse { pin, owner: other }) ==> {
                &&& row.contains(pin)
                &&& owners[pin as int] == Some(other)
            }
            &&& taken.0 matches Some(PinError::NotAvailable { pin }) ==> {
                &&& row.contains(pin)
                &&& owners[pin as int] is None
                &&& !available[pin as int]
            }
            &&& forall|i: i32|
                0 <= i <= 48 && !row.contains(i) ==> #[trigger] taken.1[i as int]
                    == owners[i as int] && taken.2[i as int] == available[i as int]
        }),
    decreases row.len(),
{
    if row.len() > 0 {
        let pin = row[0];
        let rest = row.skip(1);
        assert(row.contains(pin));
        if owners[pin as int] is None && available[pin as int] {
            let o = owners.update(pin as int, Some(owner));
            let a = available.update(pin as int, false);
            assert forall|k: int| 0 <= k < rest.len() implies 0 <= #[trigger] rest[k] <= 48 by {
                assert(rest[k] == row[k + 1]);
            }
            assert forall|j: int, k: int| 0 <= j < k < rest.len() implies rest[j] != rest[k] by {
                assert(rest[j] == row[j + 1] && rest[k] == row[k + 1]);
            }
            law_taking_a_row(o, a, rest, owner);
            assert forall|k: int| 0 <= k < rest.len() implies #[trigger] rest[k] == row[k + 1]
                && rest[k] != pin by {}
            assert forall|k: int| 1 <= k < row.len() implies #[trigger] row[k] == rest[k - 1] by {}
            assert(!rest.contains(pin));
            assert forall|i: i32| rest.contains(i) implies row.contains(i) by {
                let k = rest.index_of(i);
                assert(row[k + 1] == i);
            }
            let taken = take_row(o, a, rest, owner);
            assert(taken.1[pin as int] == o[pin as int]);
            assert(taken == take_row(owners, available, row, owner));
            if forall|k: int|
                0 <= k < row.len() ==> owners[#[trigger] row[k] as int] is None
                    && available[row[k] as int] {
                assert forall|k: int| 0 <= k < rest.len() implies o[#[trigger] rest[k] as int] is None
                    && a[rest[k] as int] by {
                    assert(rest[k] == row[k + 1]);
                }
            }
        }
    }
}

/// A message names the pin, and its owner if it has one.
pub proof fn law_messages_name_the_pin(pin: i32, owner: &'static str)
    ensures
        ({
            let in_use = PinError::AlreadyInUse { pin, owner }.text();
            let missing = PinError::NotAvailable { pin }.text();
            &&& text::begins_with(in_use, "GPIO"@ + text::signed_dec(pin as int) + " already"@)
            &&& text::begins_with(missing, "GPIO"@ + text::signed_dec(pin as int) + " not"@)
            &&& in_use.skip(in_use.len() - owner@.len()) == owner@
        }),
{
    let in_use = PinError::AlreadyInUse { pin, owner }.text();
    let missing = PinError::NotAvailable { pin }.text();
    let head = "GPIO"@ + text::signed_dec(pin as int);
    reveal_strlit(" already allocated by ");
    reveal_strlit(" already");
    reveal_strlit(" not available on this board");
    reveal_strlit(" not");
    let n = head.len() as int;
    assert(in_use.take(n + 8) =~= head + " already"@);
    assert(missing.take(n + 4) =~= head + " not"@);
    assert(in_use.skip(in_use.len() - owner@.len()) =~= owner@);
}

} // verus!
