//! The corrections of each variant, by name and in the order in which they
//! are applied, and the book that says what each correction does.

use vstd::prelude::*;
use crate::device::{Device, DeviceView};
use crate::error::Error;
use crate::lasting::lemma_second_run_fails;
use crate::patch::{program_view, run, PatchOp, PatchOpView};
use crate::variant::Variant;

verus! {

/// A named correction of a defect in a vendor description. What it does is
/// written in a `FixBook`.
#[derive(Clone, Copy, Debug, PartialEq, Eq, Structural)]
pub enum Fix {
    /// A correction to the reset and clock control.
    Rcc1,
    /// A correction to the reset and clock control.
    Rcc2,
    /// A correction to the reset and clock control.
    Rcc3,
    /// A correction to the reset and clock control.
    Rcc4,
    /// A correction to a DMA controller.
    Dma1,
    /// A correction to a DMA controller.
    Dma2_1,
    /// A correction to a DMA controller.
    Dma2_2,
    /// A correction to the DMA request multiplexer.
    AddDmamux1,
    /// A correction to the external interrupt controller.
    Exti1,
    /// A correction to the external interrupt controller.
    Exti2,
    /// A correction to the GPIO ports.
    AddAscr,
    /// A correction to the I2C interfaces.
    I2c,
    /// A correction to the power control.
    Pwr,
    /// A correction to the real-time clock.
    Rtc,
    /// A correction to an SPI interface.
    Spi2_1,
    /// A correction to an SPI interface.
    Spi2_2,
    /// A correction to an SPI interface.
    Spi3_1,
    /// A correction to an SPI interface.
    Spi3_2,
    /// A correction to a timer.
    AddTim3,
    /// A correction to a timer.
    Lptim1,
    /// A correction to a timer.
    Lptim2,
    /// A correction to a timer.
    Tim1_1,
    /// A correction to a timer.
    Tim1_2,
    /// A correction to a timer.
    Tim2_1,
    /// A correction to a timer.
    Tim2_2,
    /// A correction to a timer.
    Tim2_3,
    /// A correction to a timer.
    Tim3_1,
    /// A correction to a timer.
    Tim3_2,
    /// A correction to a timer.
    Tim3_3,
    /// A correction to a timer.
    Tim5_1,
    /// A correction to a timer.
    Tim5_2,
    /// A correction to a timer.
    Tim6,
    /// A correction to a timer.
    Tim7,
    /// A correction to a timer.
    Tim8,
    /// A correction to a timer.
    Tim9_1,
    /// A correction to a timer.
    Tim10_1,
    /// A correction to a timer.
    Tim10_2,
    /// A correction to a timer.
    Tim11_1,
    /// A correction to a timer.
    Tim11_2,
    /// A correction to a timer.
    Tim15,
    /// A correction to a timer.
    Tim16,
    /// A correction to a serial interface.
    Lpuart1,
    /// A correction to a serial interface.
    Uart4,
    /// A correction to a serial interface.
    Usart1,
    /// A correction to a serial interface.
    Usart3,
    /// A correction to an analog-to-digital converter.
    Adc1_1,
    /// A correction to an analog-to-digital converter.
    AdcFix1,
    /// A correction to an analog-to-digital converter.
    AdcCom,
}

/// The number of named corrections.
pub const FIX_COUNT: usize = 48;

impl Fix {
    /// The correction's place in the list of corrections.
    pub open spec fn ordinal(self) -> int {
        match self {
            Fix::Rcc1 => 0,
            Fix::Rcc2 => 1,
            Fix::Rcc3 => 2,
            Fix::Rcc4 => 3,
            Fix::Dma1 => 4,
            Fix::Dma2_1 => 5,
            Fix::Dma2_2 => 6,
            Fix::AddDmamux1 => 7,
            Fix::Exti1 => 8,
            Fix::Exti2 => 9,
            Fix::AddAscr => 10,
            Fix::I2c => 11,
            Fix::Pwr => 12,
            Fix::Rtc => 13,
            Fix::Spi2_1 => 14,
            Fix::Spi2_2 => 15,
            Fix::Spi3_1 => 16,
            Fix::Spi3_2 => 17,
            Fix::AddTim3 => 18,
            Fix::Lptim1 => 19,
            Fix::Lptim2 => 20,
            Fix::Tim1_1 => 21,
            Fix::Tim1_2 => 22,
            Fix::Tim2_1 => 23,
            Fix::Tim2_2 => 24,
            Fix::Tim2_3 => 25,
            Fix::Tim3_1 => 26,
            Fix::Tim3_2 => 27,
            Fix::Tim3_3 => 28,
            Fix::Tim5_1 => 29,
            Fix::Tim5_2 => 30,
            Fix::Tim6 => 31,
            Fix::Tim7 => 32,
            Fix::Tim8 => 33,
            Fix::Tim9_1 => 34,
            Fix::Tim10_1 => 35,
            Fix::Tim10_2 => 36,
            Fix::Tim11_1 => 37,
            Fix::Tim11_2 => 38,
            Fix::Tim15 => 39,
            Fix::Tim16 => 40,
            Fix::Lpuart1 => 41,
            Fix::Uart4 => 42,
            Fix::Usart1 => 43,
            Fix::Usart3 => 44,
            Fix::Adc1_1 => 45,
            Fix::AdcFix1 => 46,
            Fix::AdcCom => 47,
        }
    }

    /// The correction's place in the list of corrections.
    pub fn index(self) -> (r: usize)
        ensures
            r == self.ordinal(),
            r < FIX_COUNT,
    {
        match self {
            Fix::Rcc1 => 0,
            Fix::Rcc2 => 1,
            Fix::Rcc3 => 2,
            Fix::Rcc4 => 3,
            Fix::Dma1 => 4,
            Fix::Dma2_1 => 5,
            Fix::Dma2_2 => 6,
            Fix::AddDmamux1 => 7,
            Fix::Exti1 => 8,
            Fix::Exti2 => 9,
            Fix::AddAscr => 10,
            Fix::I2c => 11,
            Fix::Pwr => 12,
            Fix::Rtc => 13,
            Fix::Spi2_1 => 14,
            Fix::Spi2_2 => 15,
            Fix::Spi3_1 => 16,
            Fix::Spi3_2 => 17,
            Fix::AddTim3 => 18,
            Fix::Lptim1 => 19,
            Fix::Lptim2 => 20,
            Fix::Tim1_1 => 21,
            Fix::Tim1_2 => 22,
            Fix::Tim2_1 => 23,
            Fix::Tim2_2 => 24,
            Fix::Tim2_3 => 25,
            Fix::Tim3_1 => 26,
            Fix::Tim3_2 => 27,
            Fix::Tim3_3 => 28,
            Fix::Tim5_1 => 29,
            Fix::Tim5_2 => 30,
            Fix::Tim6 => 31,
            Fix::Tim7 => 32,
            Fix::Tim8 => 33,
            Fix::Tim9_1 => 34,
            Fix::Tim10_1 => 35,
            Fix::Tim10_2 => 36,
            Fix::Tim11_1 => 37,
            Fix::Tim11_2 => 38,
            Fix::Tim15 => 39,
            Fix::Tim16 => 40,
            Fix::Lpuart1 => 41,
            Fix::Uart4 => 42,
            Fix::Usart1 => 43,
            Fix::Usart3 => 44,
            Fix::Adc1_1 => 45,
            Fix::AdcFix1 => 46,
            Fix::AdcCom => 47,
        }
    }
}

/// The corrections of the STM32F102, in order.
pub open spec fn stm32f102_fixes() -> Seq<Fix> {
    seq![
        Fix::Spi2_1,
    ]
}

/// The corrections of the STM32F401, in order.
pub open spec fn stm32f401_fixes() -> Seq<Fix> {
    seq![
        Fix::Rcc2,
        Fix::Dma2_1,
        Fix::Tim1_1,
        Fix::Tim2_2,
        Fix::Tim2_3,
        Fix::Tim3_3,
        Fix::Tim5_1,
        Fix::Tim9_1,
        Fix::Tim10_1,
        Fix::Tim10_2,
        Fix::Tim11_1,
        Fix::Tim11_2,
        Fix::Adc1_1,
    ]
}

/// The corrections of the STM32F405, in order.
pub open spec fn stm32f405_fixes() -> Seq<Fix> {
    seq![
        Fix::Rcc2,
        Fix::Rcc3,
        Fix::Dma2_1,
        Fix::Dma2_2,
        Fix::Tim1_1,
        Fix::Tim2_2,
        Fix::Tim2_3,
        Fix::Tim3_3,
        Fix::Tim5_1,
        Fix::Tim9_1,
        Fix::Tim10_1,
        Fix::Tim10_2,
        Fix::Tim11_1,
        Fix::Tim11_2,
        Fix::AdcCom,
        Fix::Adc1_1,
    ]
}

/// The corrections of the STM32F407, in order.
pub open spec fn stm32f407_fixes() -> Seq<Fix> {
    seq![
        Fix::Rcc2,
        Fix::Rcc3,
        Fix::Dma2_1,
        Fix::Dma2_2,
        Fix::Tim1_1,
        Fix::Tim2_2,
        Fix::Tim2_3,
        Fix::Tim3_3,
        Fix::Tim5_1,
        Fix::Tim9_1,
        Fix::Tim10_1,
        Fix::Tim10_2,
        Fix::Tim11_1,
        Fix::Tim11_2,
        Fix::AdcCom,
        Fix::Adc1_1,
    ]
}

/// The corrections of the STM32F410, in order.
pub open spec fn stm32f410_fixes() -> Seq<Fix> {
    seq![
        Fix::Rcc2,
        Fix::Dma2_1,
        Fix::Tim1_1,
        Fix::Tim5_1,
        Fix::Tim5_2,
        Fix::Tim9_1,
        Fix::Tim11_1,
        Fix::Adc1_1,
    ]
}

/// The corrections of the STM32F411, in order.
pub open spec fn stm32f411_fixes() -> Seq<Fix> {
    seq![
        Fix::Rcc2,
        Fix::Dma2_1,
        Fix::Tim1_1,
        Fix::Tim2_2,
        Fix::Tim2_3,
        Fix::Tim3_3,
        Fix::Tim5_1,
        Fix::Tim9_1,
        Fix::Tim10_1,
        Fix::Tim10_2,
        Fix::Tim11_1,
        Fix::Tim11_2,
        Fix::Adc1_1,
    ]
}

/// The corrections of the STM32F412, in order.
pub open spec fn stm32f412_fixes() -> Seq<Fix> {
    seq![
        Fix::Rcc2,
        Fix::Dma2_1,
        Fix::Tim1_1,
        Fix::Tim2_2,
        Fix::Tim2_3,
        Fix::Tim3_3,
        Fix::Tim5_1,
        Fix::Tim6,
        Fix::Tim9_1,
        Fix::Tim10_1,
        Fix::Tim11_1,
        Fix::Adc1_1,
    ]
}

/// The corrections of the STM32F413, in order.
pub open spec fn stm32f413_fixes() -> Seq<Fix> {
    seq![
        Fix::Rcc2,
        Fix::Dma1,
        Fix::Exti2,
        Fix::Tim1_1,
        Fix::Tim2_2,
        Fix::Tim2_3,
        Fix::Tim3_3,
        Fix::Tim5_1,
        Fix::Tim7,
        Fix::Tim9_1,
        Fix::Tim10_1,
        Fix::Tim11_1,
        Fix::Adc1_1,
    ]
}

/// The corrections of the STM32F427, in order.
pub open spec fn stm32f427_fixes() -> Seq<Fix> {
    seq![
        Fix::Rcc2,
        Fix::Rcc3,
        Fix::Dma2_1,
        Fix::Dma2_2,
        Fix::Tim1_1,
        Fix::Tim2_2,
        Fix::Tim2_3,
        Fix::Tim3_3,
        Fix::Tim5_1,
        Fix::Tim9_1,
        Fix::Tim10_1,
        Fix::Tim10_2,
        Fix::Tim11_1,
        Fix::Tim11_2,
        Fix::AdcCom,
        Fix::Adc1_1,
    ]
}

/// The corrections of the STM32F429, in order.
pub open spec fn stm32f429_fixes() -> Seq<Fix> {
    seq![
        Fix::Rcc2,
        Fix::Rcc3,
        Fix::Dma2_1,
        Fix::Dma2_2,
        Fix::Tim1_1,
        Fix::Tim2_2,
        Fix::Tim2_3,
        Fix::Tim3_3,
        Fix::Tim5_1,
        Fix::Tim9_1,
        Fix::Tim10_1,
        Fix::Tim10_2,
        Fix::Tim11_1,
        Fix::Tim11_2,
        Fix::AdcCom,
        Fix::Adc1_1,
    ]
}

/// The corrections of the STM32F446, in order.
pub open spec fn stm32f446_fixes() -> Seq<Fix> {
    seq![
        Fix::Rcc2,
        Fix::Dma2_1,
        Fix::Dma2_2,
        Fix::Tim1_1,
        Fix::Tim2_2,
        Fix::Tim2_3,
        Fix::Tim3_3,
        Fix::Tim5_1,
        Fix::Tim9_1,
        Fix::Tim10_1,
        Fix::Tim11_1,
        Fix::AdcCom,
        Fix::Adc1_1,
    ]
}

/// The corrections of the STM32F469, in order.
pub open spec fn stm32f469_fixes() -> Seq<Fix> {
    seq![
        Fix::Dma2_1,
        Fix::Dma2_2,
        Fix::Tim1_1,
        Fix::Tim2_2,
        Fix::Tim2_3,
        Fix::Tim3_3,
        Fix::Tim5_1,
        Fix::Tim9_1,
        Fix::Tim10_1,
        Fix::Tim11_1,
        Fix::AdcCom,
        Fix::Adc1_1,
    ]
}

/// The corrections of the STM32L4x1, in order.
pub open spec fn stm32l4x1_fixes() -> Seq<Fix> {
    seq![
        Fix::Rcc4,
        Fix::Lptim1,
        Fix::Lptim2,
        Fix::Lpuart1,
        Fix::Rcc1,
        Fix::Spi2_2,
        Fix::Spi3_1,
        Fix::Tim1_1,
        Fix::Tim1_2,
        Fix::Tim16,
        Fix::Tim2_1,
        Fix::Tim2_3,
        Fix::Tim15,
        Fix::Tim3_1,
        Fix::Tim3_2,
        Fix::Uart4,
        Fix::Usart1,
        Fix::Usart3,
    ]
}

/// The corrections of the STM32L4x2, in order.
pub open spec fn stm32l4x2_fixes() -> Seq<Fix> {
    seq![
        Fix::Rcc4,
        Fix::I2c,
        Fix::Lptim1,
        Fix::Lptim2,
        Fix::Lpuart1,
        Fix::Rcc1,
        Fix::Spi2_2,
        Fix::Spi3_1,
        Fix::Tim1_1,
        Fix::Tim1_2,
        Fix::Tim16,
        Fix::Tim2_1,
        Fix::Tim2_3,
        Fix::Tim15,
        Fix::Tim3_1,
        Fix::Tim3_2,
        Fix::Uart4,
        Fix::Usart1,
        Fix::Usart3,
    ]
}

/// The corrections of the STM32L4x3, in order.
pub open spec fn stm32l4x3_fixes() -> Seq<Fix> {
    seq![
        Fix::AddTim3,
        Fix::Rcc4,
        Fix::Lptim1,
        Fix::Lptim2,
        Fix::Rcc1,
        Fix::Spi3_2,
        Fix::Tim1_1,
        Fix::Tim1_2,
        Fix::Tim16,
        Fix::Tim2_1,
        Fix::Tim2_3,
        Fix::Tim15,
        Fix::Tim3_1,
        Fix::Tim3_2,
    ]
}

/// The corrections of the STM32L4x5, in order.
pub open spec fn stm32l4x5_fixes() -> Seq<Fix> {
    seq![
        Fix::Rcc4,
        Fix::Exti1,
        Fix::Lptim1,
        Fix::Lptim2,
        Fix::Rcc1,
        Fix::Rtc,
        Fix::Spi3_2,
        Fix::Tim1_1,
        Fix::Tim1_2,
        Fix::Tim16,
        Fix::Tim2_1,
        Fix::Tim2_3,
        Fix::Tim15,
        Fix::Tim3_1,
        Fix::Tim8,
        Fix::AddAscr,
    ]
}

/// The corrections of the STM32L4x6, in order.
pub open spec fn stm32l4x6_fixes() -> Seq<Fix> {
    seq![
        Fix::Rcc4,
        Fix::Exti1,
        Fix::Lptim1,
        Fix::Lptim2,
        Fix::Rcc1,
        Fix::Spi3_2,
        Fix::Tim1_1,
        Fix::Tim1_2,
        Fix::Tim16,
        Fix::Tim2_1,
        Fix::Tim2_3,
        Fix::Tim15,
        Fix::Tim3_1,
        Fix::Tim8,
    ]
}

/// The corrections of the STM32L4+, in order.
pub open spec fn stm32l4plus_fixes() -> Seq<Fix> {
    seq![
        Fix::AddDmamux1,
        Fix::Rcc4,
        Fix::Exti1,
        Fix::Lptim1,
        Fix::Lptim2,
        Fix::Pwr,
        Fix::Spi3_2,
        Fix::Tim1_1,
        Fix::Tim1_2,
        Fix::Tim16,
        Fix::Tim2_1,
        Fix::Tim2_3,
        Fix::Tim15,
        Fix::Tim3_1,
        Fix::Tim8,
        Fix::AdcFix1,
    ]
}

/// The corrections of the STM32F102, in the order in which they are applied.
pub fn patch_stm32f102() -> (r: Vec<Fix>)
    ensures
        r@ == stm32f102_fixes(),
{
    let r = vec![
        Fix::Spi2_1,
    ];
    assert(r@ =~= stm32f102_fixes());
    r
}

/// The corrections of the STM32F401, in the order in which they are applied.
pub fn patch_stm32f401() -> (r: Vec<Fix>)
    ensures
        r@ == stm32f401_fixes(),
{
    let r = vec![
        Fix::Rcc2,
        Fix::Dma2_1,
        Fix::Tim1_1,
        Fix::Tim2_2,
        Fix::Tim2_3,
        Fix::Tim3_3,
        Fix::Tim5_1,
        Fix::Tim9_1,
        Fix::Tim10_1,
        Fix::Tim10_2,
        Fix::Tim11_1,
        Fix::Tim11_2,
        Fix::Adc1_1,
    ];
    assert(r@ =~= stm32f401_fixes());
    r
}

/// The corrections of the STM32F405, in the order in which they are applied.
pub fn patch_stm32f405() -> (r: Vec<Fix>)
    ensures
        r@ == stm32f405_fixes(),
{
    let r = vec![
        Fix::Rcc2,
        Fix::Rcc3,
        Fix::Dma2_1,
        Fix::Dma2_2,
        Fix::Tim1_1,
        Fix::Tim2_2,
        Fix::Tim2_3,
        Fix::Tim3_3,
        Fix::Tim5_1,
        Fix::Tim9_1,
        Fix::Tim10_1,
        Fix::Tim10_2,
        Fix::Tim11_1,
        Fix::Tim11_2,
        Fix::AdcCom,
        Fix::Adc1_1,
    ];
    assert(r@ =~= stm32f405_fixes());
    r
}

/// The corrections of the STM32F407, in the order in which they are applied.
pub fn patch_stm32f407() -> (r: Vec<Fix>)
    ensures
        r@ == stm32f407_fixes(),
{
    let r = vec![
        Fix::Rcc2,
        Fix::Rcc3,
        Fix::Dma2_1,
        Fix::Dma2_2,
        Fix::Tim1_1,
        Fix::Tim2_2,
        Fix::Tim2_3,
        Fix::Tim3_3,
        Fix::Tim5_1,
        Fix::Tim9_1,
        Fix::Tim10_1,
        Fix::Tim10_2,
        Fix::Tim11_1,
        Fix::Tim11_2,
        Fix::AdcCom,
        Fix::Adc1_1,
    ];
    assert(r@ =~= stm32f407_fixes());
    r
}

/// The corrections of the STM32F410, in the order in which they are applied.
pub fn patch_stm32f410() -> (r: Vec<Fix>)
    ensures
        r@ == stm32f410_fixes(),
{
    let r = vec![
        Fix::Rcc2,
        Fix::Dma2_1,
        Fix::Tim1_1,
        Fix::Tim5_1,
        Fix::Tim5_2,
        Fix::Tim9_1,
        Fix::Tim11_1,
        Fix::Adc1_1,
    ];
    assert(r@ =~= stm32f410_fixes());
    r
}

/// The corrections of the STM32F411, in the order in which they are applied.
pub fn patch_stm32f411() -> (r: Vec<Fix>)
    ensures
        r@ == stm32f411_fixes(),
{
    let r = vec![
        Fix::Rcc2,
        Fix::Dma2_1,
        Fix::Tim1_1,
        Fix::Tim2_2,
        Fix::Tim2_3,
        Fix::Tim3_3,
        Fix::Tim5_1,
        Fix::Tim9_1,
        Fix::Tim10_1,
        Fix::Tim10_2,
        Fix::Tim11_1,
        Fix::Tim11_2,
        Fix::Adc1_1,
    ];
    assert(r@ =~= stm32f411_fixes());
    r
}

/// The corrections of the STM32F412, in the order in which they are applied.
pub fn patch_stm32f412() -> (r: Vec<Fix>)
    ensures
        r@ == stm32f412_fixes(),
{
    let r = vec![
        Fix::Rcc2,
        Fix::Dma2_1,
        Fix::Tim1_1,
        Fix::Tim2_2,
        Fix::Tim2_3,
        Fix::Tim3_3,
        Fix::Tim5_1,
        Fix::Tim6,
        Fix::Tim9_1,
        Fix::Tim10_1,
        Fix::Tim11_1,
        Fix::Adc1_1,
    ];
    assert(r@ =~= stm32f412_fixes());
    r
}

/// The corrections of the STM32F413, in the order in which they are applied.
pub fn patch_stm32f413() -> (r: Vec<Fix>)
    ensures
        r@ == stm32f413_fixes(),
{
    let r = vec![
        Fix::Rcc2,
        Fix::Dma1,
        Fix::Exti2,
        Fix::Tim1_1,
        Fix::Tim2_2,
        Fix::Tim2_3,
        Fix::Tim3_3,
        Fix::Tim5_1,
        Fix::Tim7,
        Fix::Tim9_1,
        Fix::Tim10_1,
        Fix::Tim11_1,
        Fix::Adc1_1,
    ];
    assert(r@ =~= stm32f413_fixes());
    r
}

/// The corrections of the STM32F427, in the order in which they are applied.
pub fn patch_stm32f427() -> (r: Vec<Fix>)
    ensures
        r@ == stm32f427_fixes(),
{
    let r = vec![
        Fix::Rcc2,
        Fix::Rcc3,
        Fix::Dma2_1,
        Fix::Dma2_2,
        Fix::Tim1_1,
        Fix::Tim2_2,
        Fix::Tim2_3,
        Fix::Tim3_3,
        Fix::Tim5_1,
        Fix::Tim9_1,
        Fix::Tim10_1,
        Fix::Tim10_2,
        Fix::Tim11_1,
        Fix::Tim11_2,
        Fix::AdcCom,
        Fix::Adc1_1,
    ];
    assert(r@ =~= stm32f427_fixes());
    r
}

/// The corrections of the STM32F429, in the order in which they are applied.
pub fn patch_stm32f429() -> (r: Vec<Fix>)
    ensures
        r@ == stm32f429_fixes(),
{
    let r = vec![
        Fix::Rcc2,
        Fix::Rcc3,
        Fix::Dma2_1,
        Fix::Dma2_2,
        Fix::Tim1_1,
        Fix::Tim2_2,
        Fix::Tim2_3,
        Fix::Tim3_3,
        Fix::Tim5_1,
        Fix::Tim9_1,
        Fix::Tim10_1,
        Fix::Tim10_2,
        Fix::Tim11_1,
        Fix::Tim11_2,
        Fix::AdcCom,
        Fix::Adc1_1,
    ];
    assert(r@ =~= stm32f429_fixes());
    r
}

/// The corrections of the STM32F446, in the order in which they are applied.
pub fn patch_stm32f446() -> (r: Vec<Fix>)
    ensures
        r@ == stm32f446_fixes(),
{
    let r = vec![
        Fix::Rcc2,
        Fix::Dma2_1,
        Fix::Dma2_2,
        Fix::Tim1_1,
        Fix::Tim2_2,
        Fix::Tim2_3,
        Fix::Tim3_3,
        Fix::Tim5_1,
        Fix::Tim9_1,
        Fix::Tim10_1,
        Fix::Tim11_1,
        Fix::AdcCom,
        Fix::Adc1_1,
    ];
    assert(r@ =~= stm32f446_fixes());
    r
}

/// The corrections of the STM32F469, in the order in which they are applied.
pub fn patch_stm32f469() -> (r: Vec<Fix>)
    ensures
        r@ == stm32f469_fixes(),
{
    let r = vec![
        Fix::Dma2_1,
        Fix::Dma2_2,
        Fix::Tim1_1,
        Fix::Tim2_2,
        Fix::Tim2_3,
        Fix::Tim3_3,
        Fix::Tim5_1,
        Fix::Tim9_1,
        Fix::Tim10_1,
        Fix::Tim11_1,
        Fix::AdcCom,
        Fix::Adc1_1,
    ];
    assert(r@ =~= stm32f469_fixes());
    r
}

/// The corrections of the STM32L4x1, in the order in which they are applied.
pub fn patch_stm32l4x1() -> (r: Vec<Fix>)
    ensures
        r@ == stm32l4x1_fixes(),
{
    let r = vec![
        Fix::Rcc4,
        Fix::Lptim1,
        Fix::Lptim2,
        Fix::Lpuart1,
        Fix::Rcc1,
        Fix::Spi2_2,
        Fix::Spi3_1,
        Fix::Tim1_1,
        Fix::Tim1_2,
        Fix::Tim16,
        Fix::Tim2_1,
        Fix::Tim2_3,
        Fix::Tim15,
        Fix::Tim3_1,
        Fix::Tim3_2,
        Fix::Uart4,
        Fix::Usart1,
        Fix::Usart3,
    ];
    assert(r@ =~= stm32l4x1_fixes());
    r
}

/// The corrections of the STM32L4x2, in the order in which they are applied.
pub fn patch_stm32l4x2() -> (r: Vec<Fix>)
    ensures
        r@ == stm32l4x2_fixes(),
{
    let r = vec![
        Fix::Rcc4,
        Fix::I2c,
        Fix::Lptim1,
        Fix::Lptim2,
        Fix::Lpuart1,
        Fix::Rcc1,
        Fix::Spi2_2,
        Fix::Spi3_1,
        Fix::Tim1_1,
        Fix::Tim1_2,
        Fix::Tim16,
        Fix::Tim2_1,
        Fix::Tim2_3,
        Fix::Tim15,
        Fix::Tim3_1,
        Fix::Tim3_2,
        Fix::Uart4,
        Fix::Usart1,
        Fix::Usart3,
    ];
    assert(r@ =~= stm32l4x2_fixes());
    r
}

/// The corrections of the STM32L4x3, in the order in which they are applied.
pub fn patch_stm32l4x3() -> (r: Vec<Fix>)
    ensures
        r@ == stm32l4x3_fixes(),
{
    let r = vec![
        Fix::AddTim3,
        Fix::Rcc4,
        Fix::Lptim1,
        Fix::Lptim2,
        Fix::Rcc1,
        Fix::Spi3_2,
        Fix::Tim1_1,
        Fix::Tim1_2,
        Fix::Tim16,
        Fix::Tim2_1,
        Fix::Tim2_3,
        Fix::Tim15,
        Fix::Tim3_1,
        Fix::Tim3_2,
    ];
    assert(r@ =~= stm32l4x3_fixes());
    r
}

/// The corrections of the STM32L4x5, in the order in which they are applied.
pub fn patch_stm32l4x5() -> (r: Vec<Fix>)
    ensures
        r@ == stm32l4x5_fixes(),
{
    let r = vec![
        Fix::Rcc4,
        Fix::Exti1,
        Fix::Lptim1,
        Fix::Lptim2,
        Fix::Rcc1,
        Fix::Rtc,
        Fix::Spi3_2,
        Fix::Tim1_1,
        Fix::Tim1_2,
        Fix::Tim16,
        Fix::Tim2_1,
        Fix::Tim2_3,
        Fix::Tim15,
        Fix::Tim3_1,
        Fix::Tim8,
        Fix::AddAscr,
    ];
    assert(r@ =~= stm32l4x5_fixes());
    r
}

/// The corrections of the STM32L4x6, in the order in which they are applied.
pub fn patch_stm32l4x6() -> (r: Vec<Fix>)
    ensures
        r@ == stm32l4x6_fixes(),
{
    let r = vec![
        Fix::Rcc4,
        Fix::Exti1,
        Fix::Lptim1,
        Fix::Lptim2,
        Fix::Rcc1,
        Fix::Spi3_2,
        Fix::Tim1_1,
        Fix::Tim1_2,
        Fix::Tim16,
        Fix::Tim2_1,
        Fix::Tim2_3,
        Fix::Tim15,
        Fix::Tim3_1,
        Fix::Tim8,
    ];
    assert(r@ =~= stm32l4x6_fixes());
    r
}

/// The corrections of the STM32L4+, in the order in which they are applied.
pub fn patch_stm32l4plus() -> (r: Vec<Fix>)
    ensures
        r@ == stm32l4plus_fixes(),
{
    let r = vec![
        Fix::AddDmamux1,
        Fix::Rcc4,
        Fix::Exti1,
        Fix::Lptim1,
        Fix::Lptim2,
        Fix::Pwr,
        Fix::Spi3_2,
        Fix::Tim1_1,
        Fix::Tim1_2,
        Fix::Tim16,
        Fix::Tim2_1,
        Fix::Tim2_3,
        Fix::Tim15,
        Fix::Tim3_1,
        Fix::Tim8,
        Fix::AdcFix1,
    ];
    assert(r@ =~= stm32l4plus_fixes());
    r
}

/// The corrections of `variant`, in order. A variant whose description has
/// no known defect has none.
pub open spec fn fixes_of(variant: Variant) -> Seq<Fix> {
    match variant {
        Variant::Stm32f100 => Seq::empty(),
        Variant::Stm32f101 => Seq::empty(),
        Variant::Stm32f102 => stm32f102_fixes(),
        Variant::Stm32f103 => Seq::empty(),
        Variant::Stm32f107 => Seq::empty(),
        Variant::Stm32f401 => stm32f401_fixes(),
        Variant::Stm32f405 => stm32f405_fixes(),
        Variant::Stm32f407 => stm32f407_fixes(),
        Variant::Stm32f410 => stm32f410_fixes(),
        Variant::Stm32f411 => stm32f411_fixes(),
        Variant::Stm32f412 => stm32f412_fixes(),
        Variant::Stm32f413 => stm32f413_fixes(),
        Variant::Stm32f427 => stm32f427_fixes(),
        Variant::Stm32f429 => stm32f429_fixes(),
        Variant::Stm32f446 => stm32f446_fixes(),
        Variant::Stm32f469 => stm32f469_fixes(),
        Variant::Stm32l4x1 => stm32l4x1_fixes(),
        Variant::Stm32l4x2 => stm32l4x2_fixes(),
        Variant::Stm32l4x3 => stm32l4x3_fixes(),
        Variant::Stm32l4x5 => stm32l4x5_fixes(),
        Variant::Stm32l4x6 => stm32l4x6_fixes(),
        Variant::Stm32l4r5 => stm32l4plus_fixes(),
        Variant::Stm32l4r7 => stm32l4plus_fixes(),
        Variant::Stm32l4r9 => stm32l4plus_fixes(),
        Variant::Stm32l4s5 => stm32l4plus_fixes(),
        Variant::Stm32l4s7 => stm32l4plus_fixes(),
        Variant::Stm32l4s9 => stm32l4plus_fixes(),
    }
}

/// The corrections of `variant`, in the order in which they are applied.
pub fn program(variant: Variant) -> (r: Vec<Fix>)
    ensures
        r@ == fixes_of(variant),
{
    match variant {
        Variant::Stm32f100 => Vec::new(),
        Variant::Stm32f101 => Vec::new(),
        Variant::Stm32f102 => patch_stm32f102(),
        Variant::Stm32f103 => Vec::new(),
        Variant::Stm32f107 => Vec::new(),
        Variant::Stm32f401 => patch_stm32f401(),
        Variant::Stm32f405 => patch_stm32f405(),
        Variant::Stm32f407 => patch_stm32f407(),
        Variant::Stm32f410 => patch_stm32f410(),
        Variant::Stm32f411 => patch_stm32f411(),
        Variant::Stm32f412 => patch_stm32f412(),
        Variant::Stm32f413 => patch_stm32f413(),
        Variant::Stm32f427 => patch_stm32f427(),
        Variant::Stm32f429 => patch_stm32f429(),
        Variant::Stm32f446 => patch_stm32f446(),
        Variant::Stm32f469 => patch_stm32f469(),
        Variant::Stm32l4x1 => patch_stm32l4x1(),
        Variant::Stm32l4x2 => patch_stm32l4x2(),
        Variant::Stm32l4x3 => patch_stm32l4x3(),
        Variant::Stm32l4x5 => patch_stm32l4x5(),
        Variant::Stm32l4x6 => patch_stm32l4x6(),
        Variant::Stm32l4r5 => patch_stm32l4plus(),
        Variant::Stm32l4r7 => patch_stm32l4plus(),
        Variant::Stm32l4r9 => patch_stm32l4plus(),
        Variant::Stm32l4s5 => patch_stm32l4plus(),
        Variant::Stm32l4s7 => patch_stm32l4plus(),
        Variant::Stm32l4s9 => patch_stm32l4plus(),
    }
}

/// What each named correction does: a list of operations for every name.
pub struct FixBook {
    entries: Vec<Vec<PatchOp>>,
}

impl FixBook {
    /// The operations of `fix`: none, unless some were written down.
    pub closed spec fn ops(&self, fix: Fix) -> Seq<PatchOpView> {
        if fix.ordinal() < self.entries@.len() {
            program_view(self.entries@[fix.ordinal()]@)
        } else {
            Seq::empty()
        }
    }

    /// A book in which no correction does anything.
    pub fn new() -> (r: FixBook)
        ensures
            forall|fix: Fix| #[trigger] r.ops(fix) == Seq::<PatchOpView>::empty(),
    {
        FixBook { entries: Vec::new() }
    }

    /// Writes down what `fix` does, in place of what the book said of it.
    pub fn define(&mut self, fix: Fix, ops: Vec<PatchOp>)
        ensures
            final(self).ops(fix) == program_view(ops@),
            forall|other: Fix| other != fix ==> #[trigger] final(self).ops(other) == old(self).ops(other),
    {
        let i = fix.index();
        while self.entries.len() <= i
            invariant
                forall|other: Fix| #[trigger] self.ops(other) == old(self).ops(other),
            decreases i + 1 - self.entries@.len(),
        {
            let ghost before = *self;
            self.entries.push(Vec::new());
            assert forall|other: Fix| #[trigger] self.ops(other) == before.ops(other) by {
                if other.ordinal() == before.entries@.len() {
                    assert(self.entries@[other.ordinal()]@.len() == 0);
                    assert(self.ops(other) =~= Seq::<PatchOpView>::empty());
                }
            }
        }
        let ghost before = *self;
        self.entries[i] = ops;
        assert forall|other: Fix| other != fix implies #[trigger] self.ops(other) == before.ops(
            other,
        ) by {
            assert(other.ordinal() != fix.ordinal());
        }
    }

    /// The operations of `fix`, if any were written down.
    pub fn get(&self, fix: Fix) -> (r: Option<&Vec<PatchOp>>)
        ensures
            match r {
                Some(ops) => program_view(ops@) == self.ops(fix),
                None => self.ops(fix) == Seq::<PatchOpView>::empty(),
            },
    {
        let i = fix.index();
        if i < self.entries.len() {
            Some(&self.entries[i])
        } else {
            None
        }
    }
}

/// Where a variant's corrections failed: at which step, in which correction,
/// at which of its operations, and why.
#[derive(Clone, Copy, Debug, PartialEq, Eq, Structural)]
pub struct PatchFailure {
    pub step: usize,
    pub fix: Fix,
    pub index: usize,
    pub error: Error,
}

impl DeviceView {
    /// What applying the corrections `fixes[start..]` in order gives, each
    /// with the operations that `book` holds for it: the device after the
    /// last, or the step, the operation and the error of the first failure.
    pub open spec fn run_fixes(self, fixes: Seq<Fix>, book: FixBook, start: int) -> Result<
        DeviceView,
        (int, int, Error),
    >
        decreases fixes.len() - start,
    {
        if start < 0 || start >= fixes.len() {
            Ok(self)
        } else {
            match self.run(book.ops(fixes[start])) {
                Ok(next) => next.run_fixes(fixes, book, start + 1),
                Err((index, e)) => Err((start, index, e)),
            }
        }
    }
}

/// Applies the corrections `fixes` in order.
pub fn run_fixes(dev: Device, fixes: &Vec<Fix>, book: &FixBook) -> (res: Result<Device, PatchFailure>)
    ensures
        match res {
            Ok(d) => dev@.run_fixes(fixes@, *book, 0) == Ok::<DeviceView, (int, int, Error)>(d@)
                && d@.wf(),
            Err(f) => dev@.run_fixes(fixes@, *book, 0) == Err::<DeviceView, (int, int, Error)>(
                (f.step as int, f.index as int, f.error),
            ) && f.step < fixes@.len() && f.fix == fixes@[f.step as int],
        },
{
    let mut current = dev;
    let mut i: usize = 0;
    current.validity();
    while i < fixes.len()
        invariant
            i <= fixes.len(),
            current@.wf(),
            dev@.run_fixes(fixes@, *book, 0) == current@.run_fixes(fixes@, *book, i as int),
        decreases fixes.len() - i,
    {
        let fix = fixes[i];
        match book.get(fix) {
            Some(ops) => match run(current, ops) {
                Ok(next) => {
                    current = next;
                },
                Err(f) => {
                    return Err(PatchFailure { step: i, fix, index: f.index, error: f.error });
                },
            },
            None => {},
        }
        i += 1;
    }
    Ok(current)
}

/// Corrects the description of `variant`: applies the variant's corrections
/// in their order. The first failure ends the run and gives the device up.
pub fn patch(dev: Device, variant: Variant, book: &FixBook) -> (res: Result<Device, PatchFailure>)
    ensures
        match res {
            Ok(d) => dev@.run_fixes(fixes_of(variant), *book, 0) == Ok::<
                DeviceView,
                (int, int, Error),
            >(d@) && d@.wf(),
            Err(f) => dev@.run_fixes(fixes_of(variant), *book, 0) == Err::<
                DeviceView,
                (int, int, Error),
            >((f.step as int, f.index as int, f.error)) && f.step < fixes_of(variant).len()
                && f.fix == fixes_of(variant)[f.step as int],
        },
{
    let fixes = program(variant);
    run_fixes(dev, &fixes, book)
}

/// What correcting gives depends on the device, the variant and the book
/// alone: two runs on one description end alike, in the same device or in
/// the same failure.
pub proof fn lemma_patch_repeats(
    dev: DeviceView,
    variant: Variant,
    book: FixBook,
    first: Result<DeviceView, (int, int, Error)>,
    second: Result<DeviceView, (int, int, Error)>,
)
    requires
        first == dev.run_fixes(fixes_of(variant), book, 0),
        second == dev.run_fixes(fixes_of(variant), book, 0),
    ensures
        first == second,
{
}

/// The operations of the corrections `fixes[start..]`, as `book` holds them,
/// one list after the other.
pub open spec fn operations(fixes: Seq<Fix>, book: FixBook, start: int) -> Seq<PatchOpView>
    decreases fixes.len() - start,
{
    if start < 0 || start >= fixes.len() {
        Seq::empty()
    } else {
        book.ops(fixes[start]) + operations(fixes, book, start + 1)
    }
}

impl DeviceView {
    /// Corrections applied one by one end as their operations applied as
    /// one program: in the same device, or both in a failure.
    pub proof fn lemma_run_fixes_flat(self, fixes: Seq<Fix>, book: FixBook, start: int)
        requires
            0 <= start,
        ensures
            self.run_fixes(fixes, book, start) is Ok <==> self.run(
                operations(fixes, book, start),
            ) is Ok,
            self.run_fixes(fixes, book, start) is Ok ==> self.run_fixes(fixes, book, start)->Ok_0
                == self.run(operations(fixes, book, start))->Ok_0,
        decreases fixes.len() - start,
    {
        if start < fixes.len() {
            let first = book.ops(fixes[start]);
            let rest = operations(fixes, book, start + 1);
            self.lemma_run_append(first, rest, 0);
            if self.run(first) is Ok {
                self.run(first)->Ok_0.lemma_run_fixes_flat(fixes, book, start + 1);
            }
        }
    }
}

/// The corrections of a variant are not applied twice: if one of their
/// operations adds something that none of them takes away, then the
/// corrections, having succeeded on a well-formed device, fail on their own
/// output.
pub proof fn lemma_second_patch_fails(dev: DeviceView, fixes: Seq<Fix>, book: FixBook, i: int)
    requires
        dev.wf(),
        dev.run_fixes(fixes, book, 0) is Ok,
        0 <= i < operations(fixes, book, 0).len(),
        operations(fixes, book, 0)[i].adds() is Some,
        forall|j: int|
            0 <= j < operations(fixes, book, 0).len() ==> !(#[trigger] operations(
                fixes,
                book,
                0,
            )[j]).undoes(operations(fixes, book, 0)[i].adds().unwrap()),
    ensures
        dev.run_fixes(fixes, book, 0)->Ok_0.run_fixes(fixes, book, 0) is Err,
{
    let ops = operations(fixes, book, 0);
    dev.lemma_run_fixes_flat(fixes, book, 0);
    lemma_second_run_fails(dev, ops, i);
    dev.run(ops)->Ok_0.lemma_run_fixes_flat(fixes, book, 0);
}

proof fn lemma_stm32f102_once()
    ensures
        stm32f102_fixes().no_duplicates(),
{
    let fixes = stm32f102_fixes();
    assert forall|i: int, j: int| 0 <= i < fixes.len() && 0 <= j < fixes.len() && i != j implies fixes[i]
        != fixes[j] by {
        assert(fixes[i].ordinal() != fixes[j].ordinal());
    }
}

proof fn lemma_stm32f401_once()
    ensures
        stm32f401_fixes().no_duplicates(),
{
    let fixes = stm32f401_fixes();
    assert forall|i: int, j: int| 0 <= i < fixes.len() && 0 <= j < fixes.len() && i != j implies fixes[i]
        != fixes[j] by {
        assert(fixes[i].ordinal() != fixes[j].ordinal());
    }
}

proof fn lemma_stm32f405_once()
    ensures
        stm32f405_fixes().no_duplicates(),
{
    let fixes = stm32f405_fixes();
    assert forall|i: int, j: int| 0 <= i < fixes.len() && 0 <= j < fixes.len() && i != j implies fixes[i]
        != fixes[j] by {
        assert(fixes[i].ordinal() != fixes[j].ordinal());
    }
}

proof fn lemma_stm32f407_once()
    ensures
        stm32f407_fixes().no_duplicates(),
{
    let fixes = stm32f407_fixes();
    assert forall|i: int, j: int| 0 <= i < fixes.len() && 0 <= j < fixes.len() && i != j implies fixes[i]
        != fixes[j] by {
        assert(fixes[i].ordinal() != fixes[j].ordinal());
    }
}

proof fn lemma_stm32f410_once()
    ensures
        stm32f410_fixes().no_duplicates(),
{
    let fixes = stm32f410_fixes();
    assert forall|i: int, j: int| 0 <= i < fixes.len() && 0 <= j < fixes.len() && i != j implies fixes[i]
        != fixes[j] by {
        assert(fixes[i].ordinal() != fixes[j].ordinal());
    }
}

proof fn lemma_stm32f411_once()
    ensures
        stm32f411_fixes().no_duplicates(),
{
    let fixes = stm32f411_fixes();
    assert forall|i: int, j: int| 0 <= i < fixes.len() && 0 <= j < fixes.len() && i != j implies fixes[i]
        != fixes[j] by {
        assert(fixes[i].ordinal() != fixes[j].ordinal());
    }
}

proof fn lemma_stm32f412_once()
    ensures
        stm32f412_fixes().no_duplicates(),
{
    let fixes = stm32f412_fixes();
    assert forall|i: int, j: int| 0 <= i < fixes.len() && 0 <= j < fixes.len() && i != j implies fixes[i]
        != fixes[j] by {
        assert(fixes[i].ordinal() != fixes[j].ordinal());
    }
}

proof fn lemma_stm32f413_once()
    ensures
        stm32f413_fixes().no_duplicates(),
{
    let fixes = stm32f413_fixes();
    assert forall|i: int, j: int| 0 <= i < fixes.len() && 0 <= j < fixes.len() && i != j implies fixes[i]
        != fixes[j] by {
        assert(fixes[i].ordinal() != fixes[j].ordinal());
    }
}

proof fn lemma_stm32f427_once()
    ensures
        stm32f427_fixes().no_duplicates(),
{
    let fixes = stm32f427_fixes();
    assert forall|i: int, j: int| 0 <= i < fixes.len() && 0 <= j < fixes.len() && i != j implies fixes[i]
        != fixes[j] by {
        assert(fixes[i].ordinal() != fixes[j].ordinal());
    }
}

proof fn lemma_stm32f429_once()
    ensures
        stm32f429_fixes().no_duplicates(),
{
    let fixes = stm32f429_fixes();
    assert forall|i: int, j: int| 0 <= i < fixes.len() && 0 <= j < fixes.len() && i != j implies fixes[i]
        != fixes[j] by {
        assert(fixes[i].ordinal() != fixes[j].ordinal());
    }
}

proof fn lemma_stm32f446_once()
    ensures
        stm32f446_fixes().no_duplicates(),
{
    let fixes = stm32f446_fixes();
    assert forall|i: int, j: int| 0 <= i < fixes.len() && 0 <= j < fixes.len() && i != j implies fixes[i]
        != fixes[j] by {
        assert(fixes[i].ordinal() != fixes[j].ordinal());
    }
}

proof fn lemma_stm32f469_once()
    ensures
        stm32f469_fixes().no_duplicates(),
{
    let fixes = stm32f469_fixes();
    assert forall|i: int, j: int| 0 <= i < fixes.len() && 0 <= j < fixes.len() && i != j implies fixes[i]
        != fixes[j] by {
        assert(fixes[i].ordinal() != fixes[j].ordinal());
    }
}

proof fn lemma_stm32l4x1_once()
    ensures
        stm32l4x1_fixes().no_duplicates(),
{
    let fixes = stm32l4x1_fixes();
    assert forall|i: int, j: int| 0 <= i < fixes.len() && 0 <= j < fixes.len() && i != j implies fixes[i]
        != fixes[j] by {
        assert(fixes[i].ordinal() != fixes[j].ordinal());
    }
}

proof fn lemma_stm32l4x2_once()
    ensures
        stm32l4x2_fixes().no_duplicates(),
{
    let fixes = stm32l4x2_fixes();
    assert forall|i: int, j: int| 0 <= i < fixes.len() && 0 <= j < fixes.len() && i != j implies fixes[i]
        != fixes[j] by {
        assert(fixes[i].ordinal() != fixes[j].ordinal());
    }
}

proof fn lemma_stm32l4x3_once()
    ensures
        stm32l4x3_fixes().no_duplicates(),
{
    let fixes = stm32l4x3_fixes();
    assert forall|i: int, j: int| 0 <= i < fixes.len() && 0 <= j < fixes.len() && i != j implies fixes[i]
        != fixes[j] by {
        assert(fixes[i].ordinal() != fixes[j].ordinal());
    }
}

proof fn lemma_stm32l4x5_once()
    ensures
        stm32l4x5_fixes().no_duplicates(),
{
    let fixes = stm32l4x5_fixes();
    assert forall|i: int, j: int| 0 <= i < fixes.len() && 0 <= j < fixes.len() && i != j implies fixes[i]
        != fixes[j] by {
        assert(fixes[i].ordinal() != fixes[j].ordinal());
    }
}

proof fn lemma_stm32l4x6_once()
    ensures
        stm32l4x6_fixes().no_duplicates(),
{
    let fixes = stm32l4x6_fixes();
    assert forall|i: int, j: int| 0 <= i < fixes.len() && 0 <= j < fixes.len() && i != j implies fixes[i]
        != fixes[j] by {
        assert(fixes[i].ordinal() != fixes[j].ordinal());
    }
}

proof fn lemma_stm32l4plus_once()
    ensures
        stm32l4plus_fixes().no_duplicates(),
{
    let fixes = stm32l4plus_fixes();
    assert forall|i: int, j: int| 0 <= i < fixes.len() && 0 <= j < fixes.len() && i != j implies fixes[i]
        != fixes[j] by {
        assert(fixes[i].ordinal() != fixes[j].ordinal());
    }
}

/// No variant applies a correction twice.
pub proof fn lemma_fixes_once(variant: Variant)
    ensures
        fixes_of(variant).no_duplicates(),
{
    lemma_stm32f102_once();
    lemma_stm32f401_once();
    lemma_stm32f405_once();
    lemma_stm32f407_once();
    lemma_stm32f410_once();
    lemma_stm32f411_once();
    lemma_stm32f412_once();
    lemma_stm32f413_once();
    lemma_stm32f427_once();
    lemma_stm32f429_once();
    lemma_stm32f446_once();
    lemma_stm32f469_once();
    lemma_stm32l4x1_once();
    lemma_stm32l4x2_once();
    lemma_stm32l4x3_once();
    lemma_stm32l4x5_once();
    lemma_stm32l4x6_once();
    lemma_stm32l4plus_once();
}

} // verus!
