//! The globals of each category, as tables of values and as the calls that
//! add them.
use vstd::prelude::*;
use crate::globals::{
    object, func, keeps_entry, plain_summary, put, singleton_function, under, with_func_summary,
    with_static_summary, GlobalView, Globals, KindView,
};

verus! {

/// The table of values after `add_globals_js`: each global it adds, with its static
/// properties, in the order it adds them.
#[verifier::opaque]
pub open spec fn js_globals(t: Map<Seq<char>, GlobalView>) -> Map<Seq<char>, GlobalView> {
    let t = put(t, "AggregateError"@, plain_summary());
    let t = put(t, "Array"@, {
        let o = plain_summary();
        let o = with_static_summary(o, "from"@, plain_summary());
        let o = with_static_summary(o, "fromAsync"@, plain_summary());
        let o = with_static_summary(o, "isArray"@, plain_summary());
        let o = with_static_summary(o, "of"@, plain_summary());
        o
    });
    let t = put(t, "ArrayBuffer"@, {
        let o = plain_summary();
        let o = with_static_summary(o, "isView"@, plain_summary());
        o
    });
    let t = put(t, "AsyncDisposableStack"@, plain_summary());
    let t = put(t, "AsyncFunction"@, plain_summary());
    let t = put(t, "AsyncGenerator"@, plain_summary());
    let t = put(t, "AsyncGeneratorFunction"@, plain_summary());
    let t = put(t, "AsyncIterator"@, plain_summary());
    let t = put(t, "Atomics"@, {
        let o = plain_summary();
        let o = with_static_summary(o, "add"@, plain_summary());
        let o = with_static_summary(o, "and"@, plain_summary());
        let o = with_static_summary(o, "compareExchange"@, plain_summary());
        let o = with_static_summary(o, "exchange"@, plain_summary());
        let o = with_static_summary(o, "isLockFree"@, plain_summary());
        let o = with_static_summary(o, "load"@, plain_summary());
        let o = with_static_summary(o, "notify"@, plain_summary());
        let o = with_static_summary(o, "or"@, plain_summary());
        let o = with_static_summary(o, "pause"@, plain_summary());
        let o = with_static_summary(o, "store"@, plain_summary());
        let o = with_static_summary(o, "sub"@, plain_summary());
        let o = with_static_summary(o, "wait"@, plain_summary());
        let o = with_static_summary(o, "waitAsync"@, plain_summary());
        let o = with_static_summary(o, "xor"@, plain_summary());
        o
    });
    let t = put(t, "BigInt"@, {
        let o = plain_summary();
        let o = with_static_summary(o, "asIntN"@, plain_summary());
        let o = with_static_summary(o, "asUintN"@, plain_summary());
        o
    });
    let t = put(t, "BigInt64Array"@, {
        let o = plain_summary();
        let o = with_static_summary(o, "now"@, plain_summary());
        let o = with_static_summary(o, "parse"@, plain_summary());
        let o = with_static_summary(o, "UTC"@, plain_summary());
        o
    });
    let t = put(t, "BigUint64Array"@, plain_summary());
    let t = put(t, "Boolean"@, plain_summary());
    let t = put(t, "DataView"@, plain_summary());
    let t = put(t, "Date"@, plain_summary());
    let t = put(t, "DisposableStack"@, plain_summary());
    let t = put(t, "Error"@, {
        let o = plain_summary();
        let o = with_static_summary(o, "captureStackTrace"@, plain_summary());
        let o = with_static_summary(o, "isError"@, plain_summary());
        o
    });
    let t = put(t, "FinalizationRegistry"@, plain_summary());
    let t = put(t, "Float16Array"@, plain_summary());
    let t = put(t, "Float32Array"@, plain_summary());
    let t = put(t, "Float64Array"@, plain_summary());
    let t = put(t, "Function"@, plain_summary());
    let t = put(t, "Generator"@, plain_summary());
    let t = put(t, "GeneratorFunction"@, plain_summary());
    let t = put(t, "Infinity"@, plain_summary());
    let t = put(t, "Int8Array"@, plain_summary());
    let t = put(t, "Int16Array"@, plain_summary());
    let t = put(t, "Int32Array"@, plain_summary());
    let t = put(t, "Intl"@, {
        let o = plain_summary();
        let o = with_static_summary(o, "getCanonicalLocales"@, plain_summary());
        let o = with_static_summary(o, "supportedValuesOf"@, plain_summary());
        o
    });
    let t = put(t, "Iterator"@, {
        let o = plain_summary();
        let o = with_static_summary(o, "from"@, plain_summary());
        o
    });
    let t = put(t, "JSON"@, {
        let o = plain_summary();
        let o = with_static_summary(o, "isRawJSON"@, plain_summary());
        let o = with_static_summary(o, "parse"@, plain_summary());
        let o = with_static_summary(o, "rawJSON"@, plain_summary());
        let o = with_static_summary(o, "stringify"@, plain_summary());
        o
    });
    let t = put(t, "Map"@, {
        let o = plain_summary();
        let o = with_static_summary(o, "groupBy"@, plain_summary());
        o
    });
    let t = put(t, "Math"@, {
        let o = plain_summary();
        let o = with_static_summary(o, "abs"@, plain_summary());
        let o = with_static_summary(o, "acos"@, plain_summary());
        let o = with_static_summary(o, "acosh"@, plain_summary());
        let o = with_static_summary(o, "asin"@, plain_summary());
        let o = with_static_summary(o, "asinh"@, plain_summary());
        let o = with_static_summary(o, "atan"@, plain_summary());
        let o = with_static_summary(o, "atan2"@, plain_summary());
        let o = with_static_summary(o, "atanh"@, plain_summary());
        let o = with_static_summary(o, "cbrt"@, plain_summary());
        let o = with_static_summary(o, "ceil"@, plain_summary());
        let o = with_static_summary(o, "clz32"@, plain_summary());
        let o = with_static_summary(o, "cos"@, plain_summary());
        let o = with_static_summary(o, "cosh"@, plain_summary());
        let o = with_static_summary(o, "exp"@, plain_summary());
        let o = with_static_summary(o, "expm1"@, plain_summary());
        let o = with_static_summary(o, "f16round"@, plain_summary());
        let o = with_static_summary(o, "floor"@, plain_summary());
        let o = with_static_summary(o, "fround"@, plain_summary());
        let o = with_static_summary(o, "hypot"@, plain_summary());
        let o = with_static_summary(o, "imul"@, plain_summary());
        let o = with_static_summary(o, "log"@, plain_summary());
        let o = with_static_summary(o, "log1p"@, plain_summary());
        let o = with_static_summary(o, "log2"@, plain_summary());
        let o = with_static_summary(o, "log10"@, plain_summary());
        let o = with_static_summary(o, "max"@, plain_summary());
        let o = with_static_summary(o, "min"@, plain_summary());
        let o = with_static_summary(o, "pow"@, plain_summary());
        let o = with_static_summary(o, "random"@, plain_summary());
        let o = with_static_summary(o, "round"@, plain_summary());
        let o = with_static_summary(o, "sign"@, plain_summary());
        let o = with_static_summary(o, "sin"@, plain_summary());
        let o = with_static_summary(o, "sinh"@, plain_summary());
        let o = with_static_summary(o, "sqrt"@, plain_summary());
        let o = with_static_summary(o, "sumPrecise"@, plain_summary());
        let o = with_static_summary(o, "tan"@, plain_summary());
        let o = with_static_summary(o, "tanh"@, plain_summary());
        let o = with_static_summary(o, "trunc"@, plain_summary());
        let o = with_static_summary(o, "E"@, plain_summary());
        let o = with_static_summary(o, "LN2"@, plain_summary());
        let o = with_static_summary(o, "LN10"@, plain_summary());
        let o = with_static_summary(o, "LOG2E"@, plain_summary());
        let o = with_static_summary(o, "LOG10E"@, plain_summary());
        let o = with_static_summary(o, "PI"@, plain_summary());
        let o = with_static_summary(o, "SQRT1_2"@, plain_summary());
        let o = with_static_summary(o, "SQRT2"@, plain_summary());
        o
    });
    let t = put(t, "NaN"@, plain_summary());
    let t = put(t, "Number"@, {
        let o = plain_summary();
        let o = with_static_summary(o, "isFinite"@, plain_summary());
        let o = with_static_summary(o, "isInteger"@, plain_summary());
        let o = with_static_summary(o, "isNaN"@, plain_summary());
        let o = with_static_summary(o, "isSafeInteger"@, plain_summary());
        let o = with_static_summary(o, "parseFloat"@, plain_summary());
        let o = with_static_summary(o, "parseInt"@, plain_summary());
        let o = with_static_summary(o, "EPSILON"@, plain_summary());
        let o = with_static_summary(o, "MAX_SAFE_INTEGER"@, plain_summary());
        let o = with_static_summary(o, "MAX_VALUE"@, plain_summary());
        let o = with_static_summary(o, "MIN_SAFE_INTEGER"@, plain_summary());
        let o = with_static_summary(o, "MIN_VALUE"@, plain_summary());
        let o = with_static_summary(o, "NaN"@, plain_summary());
        let o = with_static_summary(o, "NEGATIVE_INFINITY"@, plain_summary());
        let o = with_static_summary(o, "POSITIVE_INFINITY"@, plain_summary());
        o
    });
    let t = put(t, "Object"@, {
        let o = plain_summary();
        let o = with_static_summary(o, "prototype"@, {
            let o1 = plain_summary();
            let o1 = with_static_summary(o1, "hasOwnProperty"@, plain_summary());
            let o1 = with_static_summary(o1, "isPrototypeOf"@, plain_summary());
            let o1 = with_static_summary(o1, "propertyIsEnumerable"@, plain_summary());
            o1
        });
        let o = with_static_summary(o, "assign"@, plain_summary());
        let o = with_static_summary(o, "create"@, plain_summary());
        let o = with_static_summary(o, "defineProperties"@, plain_summary());
        let o = with_static_summary(o, "defineProperty"@, plain_summary());
        let o = with_static_summary(o, "entries"@, plain_summary());
        let o = with_static_summary(o, "freeze"@, plain_summary());
        let o = with_static_summary(o, "fromEntries"@, plain_summary());
        let o = with_static_summary(o, "getOwnPropertyDescriptor"@, plain_summary());
        let o = with_static_summary(o, "getOwnPropertyDescriptors"@, plain_summary());
        let o = with_static_summary(o, "getOwnPropertyNames"@, plain_summary());
        let o = with_static_summary(o, "getOwnPropertySymbols"@, plain_summary());
        let o = with_static_summary(o, "getPrototypeOf"@, plain_summary());
        let o = with_static_summary(o, "groupBy"@, plain_summary());
        let o = with_static_summary(o, "hasOwn"@, plain_summary());
        let o = with_static_summary(o, "is"@, plain_summary());
        let o = with_static_summary(o, "isExtensible"@, plain_summary());
        let o = with_static_summary(o, "isFrozen"@, plain_summary());
        let o = with_static_summary(o, "isSealed"@, plain_summary());
        let o = with_static_summary(o, "keys"@, plain_summary());
        let o = with_static_summary(o, "preventExtensions"@, plain_summary());
        let o = with_static_summary(o, "seal"@, plain_summary());
        let o = with_static_summary(o, "setPrototypeOf"@, plain_summary());
        let o = with_static_summary(o, "values"@, plain_summary());
        o
    });
    let t = put(t, "Promise"@, {
        let o = plain_summary();
        let o = with_static_summary(o, "all"@, plain_summary());
        let o = with_static_summary(o, "allSettled"@, plain_summary());
        let o = with_static_summary(o, "any"@, plain_summary());
        let o = with_static_summary(o, "race"@, plain_summary());
        let o = with_static_summary(o, "reject"@, plain_summary());
        let o = with_static_summary(o, "resolve"@, plain_summary());
        let o = with_static_summary(o, "try"@, plain_summary());
        let o = with_static_summary(o, "withResolvers"@, plain_summary());
        o
    });
    let t = put(t, "Proxy"@, plain_summary());
    let t = put(t, "RangeError"@, plain_summary());
    let t = put(t, "ReferenceError"@, plain_summary());
    let t = put(t, "Reflect"@, {
        let o = plain_summary();
        let o = with_static_summary(o, "apply"@, plain_summary());
        let o = with_static_summary(o, "construct"@, plain_summary());
        let o = with_static_summary(o, "defineProperty"@, plain_summary());
        let o = with_static_summary(o, "deleteProperty"@, plain_summary());
        let o = with_static_summary(o, "get"@, plain_summary());
        let o = with_static_summary(o, "getOwnPropertyDescriptor"@, plain_summary());
        let o = with_static_summary(o, "getPrototypeOf"@, plain_summary());
        let o = with_static_summary(o, "has"@, plain_summary());
        let o = with_static_summary(o, "isExtensible"@, plain_summary());
        let o = with_static_summary(o, "ownKeys"@, plain_summary());
        let o = with_static_summary(o, "preventExtensions"@, plain_summary());
        let o = with_static_summary(o, "set"@, plain_summary());
        let o = with_static_summary(o, "setPrototypeOf"@, plain_summary());
        o
    });
    let t = put(t, "RegExp"@, {
        let o = plain_summary();
        let o = with_static_summary(o, "escape"@, plain_summary());
        o
    });
    let t = put(t, "Set"@, plain_summary());
    let t = put(t, "SharedArrayBuffer"@, plain_summary());
    let t = put(t, "String"@, {
        let o = plain_summary();
        let o = with_static_summary(o, "fromCharCode"@, plain_summary());
        let o = with_static_summary(o, "fromCodePoint"@, plain_summary());
        let o = with_static_summary(o, "raw"@, plain_summary());
        o
    });
    let t = put(t, "Symbol"@, {
        let o = plain_summary();
        let o = with_static_summary(o, "asyncDispose"@, plain_summary());
        let o = with_static_summary(o, "dispose"@, plain_summary());
        let o = with_static_summary(o, "for"@, plain_summary());
        let o = with_static_summary(o, "keyFor"@, plain_summary());
        let o = with_static_summary(o, "asyncIterator"@, plain_summary());
        let o = with_static_summary(o, "hasInstance"@, plain_summary());
        let o = with_static_summary(o, "isConcatSpreadable"@, plain_summary());
        let o = with_static_summary(o, "iterator"@, plain_summary());
        let o = with_static_summary(o, "match"@, plain_summary());
        let o = with_static_summary(o, "matchAll"@, plain_summary());
        let o = with_static_summary(o, "replace"@, plain_summary());
        let o = with_static_summary(o, "search"@, plain_summary());
        let o = with_static_summary(o, "species"@, plain_summary());
        let o = with_static_summary(o, "split"@, plain_summary());
        let o = with_static_summary(o, "toPrimitive"@, plain_summary());
        let o = with_static_summary(o, "toStringTag"@, plain_summary());
        let o = with_static_summary(o, "unscopables"@, plain_summary());
        o
    });
    let t = put(t, "SyntaxError"@, plain_summary());
    let t = put(t, "TextDecoder"@, {
        let o = plain_summary();
        let o = with_func_summary(o, singleton_function());
        o
    });
    let t = put(t, "TextEncoder"@, {
        let o = plain_summary();
        let o = with_func_summary(o, singleton_function());
        o
    });
    let t = put(t, "TypedArray"@, {
        let o = plain_summary();
        let o = with_static_summary(o, "from"@, plain_summary());
        let o = with_static_summary(o, "of"@, plain_summary());
        let o = with_static_summary(o, "BYTES_PER_ELEMENT"@, plain_summary());
        o
    });
    let t = put(t, "TypeError"@, plain_summary());
    let t = put(t, "Uint8Array"@, plain_summary());
    let t = put(t, "Uint8ClampedArray"@, plain_summary());
    let t = put(t, "Uint16Array"@, plain_summary());
    let t = put(t, "Uint32Array"@, plain_summary());
    let t = put(t, "URIError"@, plain_summary());
    let t = put(t, "URLPattern"@, plain_summary());
    let t = put(t, "WeakMap"@, plain_summary());
    let t = put(t, "WeakRef"@, plain_summary());
    let t = put(t, "WeakSet"@, plain_summary());
    let t = put(t, "decodeURI"@, plain_summary());
    let t = put(t, "decodeURIComponent"@, plain_summary());
    let t = put(t, "encodeURI"@, plain_summary());
    let t = put(t, "encodeURIComponent"@, plain_summary());
    let t = put(t, "isFinite"@, plain_summary());
    let t = put(t, "isNaN"@, plain_summary());
    let t = put(t, "parseFloat"@, plain_summary());
    let t = put(t, "parseInt"@, plain_summary());
    let t = put(t, "undefined"@, plain_summary());
    t
}

/// The table of values after `add_globals_console`: each global it adds, with its static
/// properties, in the order it adds them.
#[verifier::opaque]
pub open spec fn console_globals(t: Map<Seq<char>, GlobalView>) -> Map<Seq<char>, GlobalView> {
    let t = put(t, "console"@, {
        let o = plain_summary();
        let o = with_static_summary(o, "assert"@, plain_summary());
        let o = with_static_summary(o, "clear"@, plain_summary());
        let o = with_static_summary(o, "countReset"@, plain_summary());
        let o = with_static_summary(o, "count"@, plain_summary());
        let o = with_static_summary(o, "debug"@, plain_summary());
        let o = with_static_summary(o, "dir"@, plain_summary());
        let o = with_static_summary(o, "dirxml"@, plain_summary());
        let o = with_static_summary(o, "error"@, plain_summary());
        let o = with_static_summary(o, "groupCollapsed"@, plain_summary());
        let o = with_static_summary(o, "groupEnd"@, plain_summary());
        let o = with_static_summary(o, "group"@, plain_summary());
        let o = with_static_summary(o, "info"@, plain_summary());
        let o = with_static_summary(o, "log"@, plain_summary());
        let o = with_static_summary(o, "profileEnd"@, plain_summary());
        let o = with_static_summary(o, "profile"@, plain_summary());
        let o = with_static_summary(o, "table"@, plain_summary());
        let o = with_static_summary(o, "timeEnd"@, plain_summary());
        let o = with_static_summary(o, "timeLog"@, plain_summary());
        let o = with_static_summary(o, "timeStamp"@, plain_summary());
        let o = with_static_summary(o, "time"@, plain_summary());
        let o = with_static_summary(o, "trace"@, plain_summary());
        let o = with_static_summary(o, "warn"@, plain_summary());
        o
    });
    t
}

/// The table of values after `add_globals_web`: each global it adds, with
/// its static properties, in the order it adds them.
pub open spec fn web_globals(t: Map<Seq<char>, GlobalView>) -> Map<Seq<char>, GlobalView> {
    web_globals_part10(web_globals_part9(web_globals_part8(web_globals_part7(web_globals_part6(web_globals_part5(web_globals_part4(web_globals_part3(web_globals_part2(web_globals_part1(t))))))))))
}

/// The table of values after `add_globals_web_typed_css`: each global it adds, with its static
/// properties, in the order it adds them.
#[verifier::opaque]
pub open spec fn web_typed_css_globals(t: Map<Seq<char>, GlobalView>) -> Map<Seq<char>, GlobalView> {
    let t = put(t, "CSS"@, {
        let o = plain_summary();
        let o = with_static_summary(o, "registerProperty"@, plain_summary());
        let o = with_static_summary(o, "highlights"@, plain_summary());
        o
    });
    let t = put(t, "CSSPropertyRule"@, plain_summary());
    let t = put(t, "CSSStyleValue"@, {
        let o = plain_summary();
        let o = with_static_summary(o, "parseAll"@, plain_summary());
        let o = with_static_summary(o, "parse"@, plain_summary());
        o
    });
    let t = put(t, "CSSImageValue"@, plain_summary());
    let t = put(t, "CSSKeywordValue"@, plain_summary());
    let t = put(t, "CSSMathValue"@, plain_summary());
    let t = put(t, "CSSMathInvert"@, plain_summary());
    let t = put(t, "CSSMathMax"@, plain_summary());
    let t = put(t, "CSSMathMin"@, plain_summary());
    let t = put(t, "CSSMathNegate"@, plain_summary());
    let t = put(t, "CSSMathProduct"@, plain_summary());
    let t = put(t, "CSSMathSum"@, plain_summary());
    let t = put(t, "CSSNumericValue"@, plain_summary());
    let t = put(t, "CSSNumericArray"@, plain_summary());
    let t = put(t, "CSSPerspective"@, plain_summary());
    let t = put(t, "CSSPositionValue"@, plain_summary());
    let t = put(t, "CSSRotate"@, plain_summary());
    let t = put(t, "CSSScale"@, plain_summary());
    let t = put(t, "CSSSkew"@, plain_summary());
    let t = put(t, "CSSSkewX"@, plain_summary());
    let t = put(t, "CSSSkewY"@, plain_summary());
    let t = put(t, "CSSTransformValue"@, plain_summary());
    let t = put(t, "CSSTransformComponent"@, plain_summary());
    let t = put(t, "CSSTranslate"@, plain_summary());
    let t = put(t, "CSSUnitValue"@, plain_summary());
    let t = put(t, "CSSUnparsedValue"@, plain_summary());
    let t = put(t, "CSSVariableReferenceValue"@, plain_summary());
    let t = put(t, "StylePropertyMap"@, plain_summary());
    let t = put(t, "StylePropertyMapReadOnly"@, plain_summary());
    t
}

/// The table of values after `add_globals_web_background_fetch`: each global it adds, with its static
/// properties, in the order it adds them.
#[verifier::opaque]
pub open spec fn web_background_fetch_globals(t: Map<Seq<char>, GlobalView>) -> Map<Seq<char>, GlobalView> {
    let t = put(t, "BackgroundFetchManager"@, plain_summary());
    let t = put(t, "BackgroundFetchRegistration"@, plain_summary());
    let t = put(t, "BackgroundFetchRecord"@, plain_summary());
    let t = put(t, "BackgroundFetchEvent"@, plain_summary());
    let t = put(t, "BackgroundFetchUIEvent"@, plain_summary());
    t
}

/// The table of values after `add_globals_web_sync`: each global it adds, with its static
/// properties, in the order it adds them.
#[verifier::opaque]
pub open spec fn web_sync_globals(t: Map<Seq<char>, GlobalView>) -> Map<Seq<char>, GlobalView> {
    let t = put(t, "SyncManager"@, plain_summary());
    let t = put(t, "SyncEvent"@, plain_summary());
    t
}

/// The table of values after `add_globals_web_battery`: each global it adds, with its static
/// properties, in the order it adds them.
#[verifier::opaque]
pub open spec fn web_battery_globals(t: Map<Seq<char>, GlobalView>) -> Map<Seq<char>, GlobalView> {
    let t = put(t, "BatteryManager"@, plain_summary());
    t
}

/// The table of values after `add_globals_web_barcode`: each global it adds, with its static
/// properties, in the order it adds them.
#[verifier::opaque]
pub open spec fn web_barcode_globals(t: Map<Seq<char>, GlobalView>) -> Map<Seq<char>, GlobalView> {
    let t = put(t, "BarcodeDetector"@, plain_summary());
    t
}

/// The table of values after `add_globals_web_bluetooth`: each global it adds, with its static
/// properties, in the order it adds them.
#[verifier::opaque]
pub open spec fn web_bluetooth_globals(t: Map<Seq<char>, GlobalView>) -> Map<Seq<char>, GlobalView> {
    let t = put(t, "Bluetooth"@, plain_summary());
    let t = put(t, "BluetoothCharacteristicProperties"@, plain_summary());
    let t = put(t, "BluetoothDevice"@, plain_summary());
    let t = put(t, "BluetoothRemoteGATTCharacteristic"@, plain_summary());
    let t = put(t, "BluetoothRemoteGATTDescriptor"@, plain_summary());
    let t = put(t, "BluetoothRemoteGATTServer"@, plain_summary());
    let t = put(t, "BluetoothRemoteGATTService"@, plain_summary());
    t
}

/// The table of values after `add_globals_web_paint`: each global it adds, with its static
/// properties, in the order it adds them.
#[verifier::opaque]
pub open spec fn web_paint_globals(t: Map<Seq<char>, GlobalView>) -> Map<Seq<char>, GlobalView> {
    let t = put(t, "PaintWorkletGlobalScope"@, plain_summary());
    let t = put(t, "PaintRenderingContext2D"@, plain_summary());
    let t = put(t, "PaintSize"@, plain_summary());
    t
}

/// The table of values after adding the globals of category `c`; a name that is
/// no category adds nothing.
pub open spec fn category_globals(c: Seq<char>, t: Map<Seq<char>, GlobalView>) -> Map<Seq<char>, GlobalView> {
    if c == "js"@ {
        js_globals(t)
    } else if c == "console"@ {
        console_globals(t)
    } else if c == "web"@ {
        web_globals(t)
    } else if c == "web:typed-css"@ {
        web_typed_css_globals(t)
    } else if c == "web:background-fetch"@ {
        web_background_fetch_globals(t)
    } else if c == "web:barcode"@ {
        web_barcode_globals(t)
    } else if c == "web:battery"@ {
        web_battery_globals(t)
    } else if c == "web:bluetooth"@ {
        web_bluetooth_globals(t)
    } else if c == "web:sync"@ {
        web_sync_globals(t)
    } else if c == "web:paint"@ {
        web_paint_globals(t)
    } else {
        t
    }
}

/// The table of values after adding the globals of each listed category, in order.
pub open spec fn add_categories(t: Map<Seq<char>, GlobalView>, cs: Seq<Seq<char>>) -> Map<Seq<char>, GlobalView>
    decreases cs.len(),
{
    if cs.len() == 0 {
        t
    } else {
        category_globals(cs.last(), add_categories(t, cs.drop_last()))
    }
}

proof fn lemma_differ_not_under(name: Seq<char>, k: Seq<char>, i: int)
    requires
        0 <= i < name.len(),
        i < k.len(),
        name[i] != k[i],
    ensures
        !under(name, k),
{
    if k.len() >= name.len() {
        assert(k.subrange(0, name.len() as int)[i] != name[i]);
    }
}

/// The globals added after `TextEncoder` and `TextDecoder` are neither of
/// them nor below them.
proof fn lemma_names_after_text_codecs()
    ensures
        "TextDecoder"@.len() > 0,
        "TextEncoder"@.len() > 0,
        !under("TextEncoder"@, "TextDecoder"@),
        "TypedArray"@.len() > 0 && !under("TypedArray"@, "TextDecoder"@) && !under("TypedArray"@, "TextEncoder"@),
        "TypeError"@.len() > 0 && !under("TypeError"@, "TextDecoder"@) && !under("TypeError"@, "TextEncoder"@),
        "Uint8Array"@.len() > 0 && !under("Uint8Array"@, "TextDecoder"@) && !under("Uint8Array"@, "TextEncoder"@),
        "Uint8ClampedArray"@.len() > 0 && !under("Uint8ClampedArray"@, "TextDecoder"@) && !under("Uint8ClampedArray"@, "TextEncoder"@),
        "Uint16Array"@.len() > 0 && !under("Uint16Array"@, "TextDecoder"@) && !under("Uint16Array"@, "TextEncoder"@),
        "Uint32Array"@.len() > 0 && !under("Uint32Array"@, "TextDecoder"@) && !under("Uint32Array"@, "TextEncoder"@),
        "URIError"@.len() > 0 && !under("URIError"@, "TextDecoder"@) && !under("URIError"@, "TextEncoder"@),
        "URLPattern"@.len() > 0 && !under("URLPattern"@, "TextDecoder"@) && !under("URLPattern"@, "TextEncoder"@),
        "WeakMap"@.len() > 0 && !under("WeakMap"@, "TextDecoder"@) && !under("WeakMap"@, "TextEncoder"@),
        "WeakRef"@.len() > 0 && !under("WeakRef"@, "TextDecoder"@) && !under("WeakRef"@, "TextEncoder"@),
        "WeakSet"@.len() > 0 && !under("WeakSet"@, "TextDecoder"@) && !under("WeakSet"@, "TextEncoder"@),
        "decodeURI"@.len() > 0 && !under("decodeURI"@, "TextDecoder"@) && !under("decodeURI"@, "TextEncoder"@),
        "decodeURIComponent"@.len() > 0 && !under("decodeURIComponent"@, "TextDecoder"@) && !under("decodeURIComponent"@, "TextEncoder"@),
        "encodeURI"@.len() > 0 && !under("encodeURI"@, "TextDecoder"@) && !under("encodeURI"@, "TextEncoder"@),
        "encodeURIComponent"@.len() > 0 && !under("encodeURIComponent"@, "TextDecoder"@) && !under("encodeURIComponent"@, "TextEncoder"@),
        "isFinite"@.len() > 0 && !under("isFinite"@, "TextDecoder"@) && !under("isFinite"@, "TextEncoder"@),
        "isNaN"@.len() > 0 && !under("isNaN"@, "TextDecoder"@) && !under("isNaN"@, "TextEncoder"@),
        "parseFloat"@.len() > 0 && !under("parseFloat"@, "TextDecoder"@) && !under("parseFloat"@, "TextEncoder"@),
        "parseInt"@.len() > 0 && !under("parseInt"@, "TextDecoder"@) && !under("parseInt"@, "TextEncoder"@),
        "undefined"@.len() > 0 && !under("undefined"@, "TextDecoder"@) && !under("undefined"@, "TextEncoder"@),
{
    reveal_strlit("TextDecoder");
    reveal_strlit("TextEncoder");
    reveal_strlit("TypedArray");
    reveal_strlit("TypeError");
    reveal_strlit("Uint8Array");
    reveal_strlit("Uint8ClampedArray");
    reveal_strlit("Uint16Array");
    reveal_strlit("Uint32Array");
    reveal_strlit("URIError");
    reveal_strlit("URLPattern");
    reveal_strlit("WeakMap");
    reveal_strlit("WeakRef");
    reveal_strlit("WeakSet");
    reveal_strlit("decodeURI");
    reveal_strlit("decodeURIComponent");
    reveal_strlit("encodeURI");
    reveal_strlit("encodeURIComponent");
    reveal_strlit("isFinite");
    reveal_strlit("isNaN");
    reveal_strlit("parseFloat");
    reveal_strlit("parseInt");
    reveal_strlit("undefined");
    lemma_differ_not_under("TextEncoder"@, "TextDecoder"@, 4);
    lemma_differ_not_under("Uint16Array"@, "TextDecoder"@, 0);
    lemma_differ_not_under("Uint16Array"@, "TextEncoder"@, 0);
    lemma_differ_not_under("Uint32Array"@, "TextDecoder"@, 0);
    lemma_differ_not_under("Uint32Array"@, "TextEncoder"@, 0);
}

pub(crate) fn add_globals_js(g: &mut Globals)
    ensures
        final(g).root() == old(g).root(),
        final(g).summary() == js_globals(old(g).summary()),
        final(g).summary().contains_key("TextDecoder"@) && final(g).summary()["TextDecoder"@] == (GlobalView { hoist: true, kind: KindView::Func(singleton_function()) }),
        final(g).summary().contains_key("TextEncoder"@) && final(g).summary()["TextEncoder"@] == (GlobalView { hoist: true, kind: KindView::Func(singleton_function()) }),
{
    proof {
        reveal(js_globals);
        lemma_names_after_text_codecs();
    }
    g.set("AggregateError", object());
    g.set(
        "Array",
        object()
            .with_static("from", object())
            .with_static("fromAsync", object())
            .with_static("isArray", object())
            .with_static("of", object()),
    );
    g.set("ArrayBuffer", object().with_static("isView", object()));
    g.set("AsyncDisposableStack", object());
    g.set("AsyncFunction", object());
    g.set("AsyncGenerator", object());
    g.set("AsyncGeneratorFunction", object());
    g.set("AsyncIterator", object());
    g.set(
        "Atomics",
        object()
            .with_static("add", object())
            .with_static("and", object())
            .with_static("compareExchange", object())
            .with_static("exchange", object())
            .with_static("isLockFree", object())
            .with_static("load", object())
            .with_static("notify", object())
            .with_static("or", object())
            .with_static("pause", object())
            .with_static("store", object())
            .with_static("sub", object())
            .with_static("wait", object())
            .with_static("waitAsync", object())
            .with_static("xor", object()),
    );
    g.set("BigInt", object().with_static("asIntN", object()).with_static("asUintN", object()));
    g.set(
        "BigInt64Array",
        object()
            .with_static("now", object())
            .with_static("parse", object())
            .with_static("UTC", object()),
    );
    g.set("BigUint64Array", object());
    g.set("Boolean", object());
    g.set("DataView", object());
    g.set("Date", object());
    g.set("DisposableStack", object());
    g.set(
        "Error",
        object().with_static("captureStackTrace", object()).with_static("isError", object()),
    );
    g.set("FinalizationRegistry", object());
    g.set("Float16Array", object());
    g.set("Float32Array", object());
    g.set("Float64Array", object());
    g.set("Function", object());
    g.set("Generator", object());
    g.set("GeneratorFunction", object());
    g.set("Infinity", object());
    g.set("Int8Array", object());
    g.set("Int16Array", object());
    g.set("Int32Array", object());
    g.set(
        "Intl",
        object()
            .with_static("getCanonicalLocales", object())
            .with_static("supportedValuesOf", object()),
    );
    g.set("Iterator", object().with_static("from", object()));
    g.set(
        "JSON",
        object()
            .with_static("isRawJSON", object())
            .with_static("parse", object())
            .with_static("rawJSON", object())
            .with_static("stringify", object()),
    );
    g.set("Map", object().with_static("groupBy", object()));
    g.set(
        "Math",
        object()
            .with_static("abs", object())
            .with_static("acos", object())
            .with_static("acosh", object())
            .with_static("asin", object())
            .with_static("asinh", object())
            .with_static("atan", object())
            .with_static("atan2", object())
            .with_static("atanh", object())
            .with_static("cbrt", object())
            .with_static("ceil", object())
            .with_static("clz32", object())
            .with_static("cos", object())
            .with_static("cosh", object())
            .with_static("exp", object())
            .with_static("expm1", object())
            .with_static("f16round", object())
            .with_static("floor", object())
            .with_static("fround", object())
            .with_static("hypot", object())
            .with_static("imul", object())
            .with_static("log", object())
            .with_static("log1p", object())
            .with_static("log2", object())
            .with_static("log10", object())
            .with_static("max", object())
            .with_static("min", object())
            .with_static("pow", object())
            .with_static("random", object())
            .with_static("round", object())
            .with_static("sign", object())
            .with_static("sin", object())
            .with_static("sinh", object())
            .with_static("sqrt", object())
            .with_static("sumPrecise", object())
            .with_static("tan", object())
            .with_static("tanh", object())
            .with_static("trunc", object())
            // Constants
            .with_static("E", object())
            .with_static("LN2", object())
            .with_static("LN10", object())
            .with_static("LOG2E", object())
            .with_static("LOG10E", object())
            .with_static("PI", object())
            .with_static("SQRT1_2", object())
            .with_static("SQRT2", object()),
    );
    g.set("NaN", object());
    g.set(
        "Number",
        object()
            .with_static("isFinite", object())
            .with_static("isInteger", object())
            .with_static("isNaN", object())
            .with_static("isSafeInteger", object())
            .with_static("parseFloat", object())
            .with_static("parseInt", object())
            // Constants
            .with_static("EPSILON", object())
            .with_static("MAX_SAFE_INTEGER", object())
            .with_static("MAX_VALUE", object())
            .with_static("MIN_SAFE_INTEGER", object())
            .with_static("MIN_VALUE", object())
            .with_static("NaN", object())
            .with_static("NEGATIVE_INFINITY", object())
            .with_static("POSITIVE_INFINITY", object()),
    );
    g.set(
        "Object",
        object()
            .with_static(
                "prototype",
                object()
                    .with_static("hasOwnProperty", object())
                    .with_static("isPrototypeOf", object())
                    .with_static("propertyIsEnumerable", object()),
            )
            .with_static("assign", object())
            .with_static("create", object())
            .with_static("defineProperties", object())
            .with_static("defineProperty", object())
            .with_static("entries", object())
            .with_static("freeze", object())
            .with_static("fromEntries", object())
            .with_static("getOwnPropertyDescriptor", object())
            .with_static("getOwnPropertyDescriptors", object())
            .with_static("getOwnPropertyNames", object())
            .with_static("getOwnPropertySymbols", object())
            .with_static("getPrototypeOf", object())
            .with_static("groupBy", object())
            .with_static("hasOwn", object())
            .with_static("is", object())
            .with_static("isExtensible", object())
            .with_static("isFrozen", object())
            .with_static("isSealed", object())
            .with_static("keys", object())
            .with_static("preventExtensions", object())
            .with_static("seal", object())
            .with_static("setPrototypeOf", object())
            .with_static("values", object()),
    );
    g.set(
        "Promise",
        object()
            .with_static("all", object())
            .with_static("allSettled", object())
            .with_static("any", object())
            .with_static("race", object())
            .with_static("reject", object())
            .with_static("resolve", object())
            .with_static("try", object())
            .with_static("withResolvers", object()),
    );
    g.set("Proxy", object());
    g.set("RangeError", object());
    g.set("ReferenceError", object());
    g.set(
        "Reflect",
        object()
            .with_static("apply", object())
            .with_static("construct", object())
            .with_static("defineProperty", object())
            .with_static("deleteProperty", object())
            .with_static("get", object())
            .with_static("getOwnPropertyDescriptor", object())
            .with_static("getPrototypeOf", object())
            .with_static("has", object())
            .with_static("isExtensible", object())
            .with_static("ownKeys", object())
            .with_static("preventExtensions", object())
            .with_static("set", object())
            .with_static("setPrototypeOf", object()),
    );
    g.set("RegExp", object().with_static("escape", object()));
    g.set("Set", object());
    g.set("SharedArrayBuffer", object());
    g.set(
        "String",
        object()
            .with_static("fromCharCode", object())
            .with_static("fromCodePoint", object())
            .with_static("raw", object()),
    );
    g.set(
        "Symbol",
        object()
            .with_static("asyncDispose", object())
            .with_static("dispose", object())
            .with_static("for", object())
            .with_static("keyFor", object())
            .with_static("asyncIterator", object())
            .with_static("hasInstance", object())
            .with_static("isConcatSpreadable", object())
            .with_static("iterator", object())
            .with_static("match", object())
            .with_static("matchAll", object())
            .with_static("replace", object())
            .with_static("search", object())
            .with_static("species", object())
            .with_static("split", object())
            .with_static("toPrimitive", object())
            .with_static("toStringTag", object())
            .with_static("unscopables", object()),
    );
    g.set("SyntaxError", object());
    let ghost before = g.summary();
    g.set("TextDecoder", object().with_func(func().singleton()));
    let ghost before = g.summary();
    g.set("TextEncoder", object().with_func(func().singleton()));
    assert(keeps_entry(before, g.summary(), "TextDecoder"@));
    let ghost before = g.summary();
    g.set(
        "TypedArray",
        object()
            .with_static("from", object())
            .with_static("of", object())
            .with_static("BYTES_PER_ELEMENT", object()),
    );
    assert(keeps_entry(before, g.summary(), "TextDecoder"@));
    assert(keeps_entry(before, g.summary(), "TextEncoder"@));
    let ghost before = g.summary();
    g.set("TypeError", object());
    assert(keeps_entry(before, g.summary(), "TextDecoder"@));
    assert(keeps_entry(before, g.summary(), "TextEncoder"@));
    let ghost before = g.summary();
    g.set("Uint8Array", object());
    assert(keeps_entry(before, g.summary(), "TextDecoder"@));
    assert(keeps_entry(before, g.summary(), "TextEncoder"@));
    let ghost before = g.summary();
    g.set("Uint8ClampedArray", object());
    assert(keeps_entry(before, g.summary(), "TextDecoder"@));
    assert(keeps_entry(before, g.summary(), "TextEncoder"@));
    let ghost before = g.summary();
    g.set("Uint16Array", object());
    assert(keeps_entry(before, g.summary(), "TextDecoder"@));
    assert(keeps_entry(before, g.summary(), "TextEncoder"@));
    let ghost before = g.summary();
    g.set("Uint32Array", object());
    assert(keeps_entry(before, g.summary(), "TextDecoder"@));
    assert(keeps_entry(before, g.summary(), "TextEncoder"@));
    let ghost before = g.summary();
    g.set("URIError", object());
    assert(keeps_entry(before, g.summary(), "TextDecoder"@));
    assert(keeps_entry(before, g.summary(), "TextEncoder"@));
    let ghost before = g.summary();
    g.set("URLPattern", object());
    assert(keeps_entry(before, g.summary(), "TextDecoder"@));
    assert(keeps_entry(before, g.summary(), "TextEncoder"@));
    let ghost before = g.summary();
    g.set("WeakMap", object());
    assert(keeps_entry(before, g.summary(), "TextDecoder"@));
    assert(keeps_entry(before, g.summary(), "TextEncoder"@));
    let ghost before = g.summary();
    g.set("WeakRef", object());
    assert(keeps_entry(before, g.summary(), "TextDecoder"@));
    assert(keeps_entry(before, g.summary(), "TextEncoder"@));
    let ghost before = g.summary();
    g.set("WeakSet", object());
    assert(keeps_entry(before, g.summary(), "TextDecoder"@));
    assert(keeps_entry(before, g.summary(), "TextEncoder"@));
    let ghost before = g.summary();
    g.set("decodeURI", object());
    assert(keeps_entry(before, g.summary(), "TextDecoder"@));
    assert(keeps_entry(before, g.summary(), "TextEncoder"@));
    let ghost before = g.summary();
    g.set("decodeURIComponent", object());
    assert(keeps_entry(before, g.summary(), "TextDecoder"@));
    assert(keeps_entry(before, g.summary(), "TextEncoder"@));
    let ghost before = g.summary();
    g.set("encodeURI", object());
    assert(keeps_entry(before, g.summary(), "TextDecoder"@));
    assert(keeps_entry(before, g.summary(), "TextEncoder"@));
    let ghost before = g.summary();
    g.set("encodeURIComponent", object());
    assert(keeps_entry(before, g.summary(), "TextDecoder"@));
    assert(keeps_entry(before, g.summary(), "TextEncoder"@));
    let ghost before = g.summary();
    g.set("isFinite", object());
    assert(keeps_entry(before, g.summary(), "TextDecoder"@));
    assert(keeps_entry(before, g.summary(), "TextEncoder"@));
    let ghost before = g.summary();
    g.set("isNaN", object());
    assert(keeps_entry(before, g.summary(), "TextDecoder"@));
    assert(keeps_entry(before, g.summary(), "TextEncoder"@));
    let ghost before = g.summary();
    g.set("parseFloat", object());
    assert(keeps_entry(before, g.summary(), "TextDecoder"@));
    assert(keeps_entry(before, g.summary(), "TextEncoder"@));
    let ghost before = g.summary();
    g.set("parseInt", object());
    assert(keeps_entry(before, g.summary(), "TextDecoder"@));
    assert(keeps_entry(before, g.summary(), "TextEncoder"@));
    let ghost before = g.summary();
    g.set("undefined", object());
    assert(keeps_entry(before, g.summary(), "TextDecoder"@));
    assert(keeps_entry(before, g.summary(), "TextEncoder"@));
}

pub(crate) fn add_globals_console(g: &mut Globals)
    ensures
        final(g).root() == old(g).root(),
        final(g).summary() == console_globals(old(g).summary()),
{
    proof {
        reveal(console_globals);
    }
    g.set(
        "console",
        object()
            .with_static("assert", object())
            .with_static("clear", object())
            .with_static("countReset", object())
            .with_static("count", object())
            .with_static("debug", object())
            .with_static("dir", object())
            .with_static("dirxml", object())
            .with_static("error", object())
            .with_static("groupCollapsed", object())
            .with_static("groupEnd", object())
            .with_static("group", object())
            .with_static("info", object())
            .with_static("log", object())
            .with_static("profileEnd", object())
            .with_static("profile", object())
            .with_static("table", object())
            .with_static("timeEnd", object())
            .with_static("timeLog", object())
            .with_static("timeStamp", object())
            .with_static("time", object())
            .with_static("trace", object())
            .with_static("warn", object()),
    );
}

/// The table of values after part 1 of `add_globals_web`.
#[verifier::opaque]
pub open spec fn web_globals_part1(t: Map<Seq<char>, GlobalView>) -> Map<Seq<char>, GlobalView> {
    let t = put(t, "Navigator"@, plain_summary());
    let t = put(t, "Window"@, plain_summary());
    let t = put(t, "Document"@, plain_summary());
    let t = put(t, "URLSearchParams"@, plain_summary());
    let t = put(t, "Range"@, plain_summary());
    let t = put(t, "Element"@, plain_summary());
    let t = put(t, "HTMLDocument"@, plain_summary());
    let t = put(t, "HTMLCollection"@, plain_summary());
    let t = put(t, "HTMLFormControlsCollection"@, plain_summary());
    let t = put(t, "HTMLOptionsCollection"@, plain_summary());
    let t = put(t, "HTMLElement"@, plain_summary());
    let t = put(t, "HTMLAreaElement"@, plain_summary());
    let t = put(t, "HTMLAnchorElement"@, plain_summary());
    let t = put(t, "HTMLAudioElement"@, plain_summary());
    let t = put(t, "HTMLBaseElement"@, plain_summary());
    let t = put(t, "HTMLBodyElement"@, plain_summary());
    let t = put(t, "HTMLBRElement"@, plain_summary());
    let t = put(t, "HTMLButtonElement"@, plain_summary());
    let t = put(t, "HTMLCanvasElement"@, plain_summary());
    let t = put(t, "HTMLDataElement"@, plain_summary());
    let t = put(t, "HTMLDataListElement"@, plain_summary());
    let t = put(t, "HTMLDetailsElement"@, plain_summary());
    let t = put(t, "HTMLDialogElement"@, plain_summary());
    let t = put(t, "HTMLDivElement"@, plain_summary());
    let t = put(t, "HTMLDListElement"@, plain_summary());
    t
}

/// `k` is none of the globals of part 1 of `add_globals_web`, nor below one.
#[verifier::opaque]
pub open spec fn outside_web_part1(k: Seq<char>) -> bool {
    &&& !under("Navigator"@, k)
    &&& !under("Window"@, k)
    &&& !under("Document"@, k)
    &&& !under("URLSearchParams"@, k)
    &&& !under("Range"@, k)
    &&& !under("Element"@, k)
    &&& !under("HTMLDocument"@, k)
    &&& !under("HTMLCollection"@, k)
    &&& !under("HTMLFormControlsCollection"@, k)
    &&& !under("HTMLOptionsCollection"@, k)
    &&& !under("HTMLElement"@, k)
    &&& !under("HTMLAreaElement"@, k)
    &&& !under("HTMLAnchorElement"@, k)
    &&& !under("HTMLAudioElement"@, k)
    &&& !under("HTMLBaseElement"@, k)
    &&& !under("HTMLBodyElement"@, k)
    &&& !under("HTMLBRElement"@, k)
    &&& !under("HTMLButtonElement"@, k)
    &&& !under("HTMLCanvasElement"@, k)
    &&& !under("HTMLDataElement"@, k)
    &&& !under("HTMLDataListElement"@, k)
    &&& !under("HTMLDetailsElement"@, k)
    &&& !under("HTMLDialogElement"@, k)
    &&& !under("HTMLDivElement"@, k)
    &&& !under("HTMLDListElement"@, k)
}

/// The globals of part 1 of `add_globals_web` have names.
proof fn lemma_web_part1_names()
    ensures
        "Navigator"@.len() > 0,
        "Window"@.len() > 0,
        "Document"@.len() > 0,
        "URLSearchParams"@.len() > 0,
        "Range"@.len() > 0,
        "Element"@.len() > 0,
        "HTMLDocument"@.len() > 0,
        "HTMLCollection"@.len() > 0,
        "HTMLFormControlsCollection"@.len() > 0,
        "HTMLOptionsCollection"@.len() > 0,
        "HTMLElement"@.len() > 0,
        "HTMLAreaElement"@.len() > 0,
        "HTMLAnchorElement"@.len() > 0,
        "HTMLAudioElement"@.len() > 0,
        "HTMLBaseElement"@.len() > 0,
        "HTMLBodyElement"@.len() > 0,
        "HTMLBRElement"@.len() > 0,
        "HTMLButtonElement"@.len() > 0,
        "HTMLCanvasElement"@.len() > 0,
        "HTMLDataElement"@.len() > 0,
        "HTMLDataListElement"@.len() > 0,
        "HTMLDetailsElement"@.len() > 0,
        "HTMLDialogElement"@.len() > 0,
        "HTMLDivElement"@.len() > 0,
        "HTMLDListElement"@.len() > 0,
{
    reveal_strlit("Navigator");
    reveal_strlit("Window");
    reveal_strlit("Document");
    reveal_strlit("URLSearchParams");
    reveal_strlit("Range");
    reveal_strlit("Element");
    reveal_strlit("HTMLDocument");
    reveal_strlit("HTMLCollection");
    reveal_strlit("HTMLFormControlsCollection");
    reveal_strlit("HTMLOptionsCollection");
    reveal_strlit("HTMLElement");
    reveal_strlit("HTMLAreaElement");
    reveal_strlit("HTMLAnchorElement");
    reveal_strlit("HTMLAudioElement");
    reveal_strlit("HTMLBaseElement");
    reveal_strlit("HTMLBodyElement");
    reveal_strlit("HTMLBRElement");
    reveal_strlit("HTMLButtonElement");
    reveal_strlit("HTMLCanvasElement");
    reveal_strlit("HTMLDataElement");
    reveal_strlit("HTMLDataListElement");
    reveal_strlit("HTMLDetailsElement");
    reveal_strlit("HTMLDialogElement");
    reveal_strlit("HTMLDivElement");
    reveal_strlit("HTMLDListElement");
}

fn add_globals_web_part1(g: &mut Globals)
    ensures
        final(g).root() == old(g).root(),
        final(g).summary() == web_globals_part1(old(g).summary()),
        forall|k: Seq<char>| outside_web_part1(k) ==> #[trigger] keeps_entry(old(g).summary(), final(g).summary(), k),
{
    proof {
        reveal(web_globals_part1);
        reveal(outside_web_part1);
        lemma_web_part1_names();
    }
    let ghost start = g.summary();
    g.set("Navigator", object());
    g.set("Window", object());
    g.set("Document", object());
    g.set("URLSearchParams", object());
    g.set("Range", object());

    g.set("Element", object());
    g.set("HTMLDocument", object());
    g.set("HTMLCollection", object());
    g.set("HTMLFormControlsCollection", object());
    g.set("HTMLOptionsCollection", object());
    g.set("HTMLElement", object());
    g.set("HTMLAreaElement", object());
    g.set("HTMLAnchorElement", object());
    g.set("HTMLAudioElement", object());
    g.set("HTMLBaseElement", object());
    g.set("HTMLBodyElement", object());
    g.set("HTMLBRElement", object());
    g.set("HTMLButtonElement", object());
    g.set("HTMLCanvasElement", object());
    g.set("HTMLDataElement", object());
    g.set("HTMLDataListElement", object());
    g.set("HTMLDetailsElement", object());
    g.set("HTMLDialogElement", object());
    g.set("HTMLDivElement", object());
    g.set("HTMLDListElement", object());
    assert forall|k: Seq<char>| outside_web_part1(k) implies #[trigger] keeps_entry(start, g.summary(), k) by {}
}

/// The table of values after part 2 of `add_globals_web`.
#[verifier::opaque]
pub open spec fn web_globals_part2(t: Map<Seq<char>, GlobalView>) -> Map<Seq<char>, GlobalView> {
    let t = put(t, "HTMLEmbedElement"@, plain_summary());
    let t = put(t, "HTMLFencedFrameElement"@, plain_summary());
    let t = put(t, "HTMLFieldSetElement"@, plain_summary());
    let t = put(t, "HTMLFormElement"@, plain_summary());
    let t = put(t, "HTMLHeadElement"@, plain_summary());
    let t = put(t, "HTMLHeadingElement"@, plain_summary());
    let t = put(t, "HTMLHRElement"@, plain_summary());
    let t = put(t, "HTMLHtmlElement"@, plain_summary());
    let t = put(t, "HTMLIFrameElement"@, plain_summary());
    let t = put(t, "HTMLImageElement"@, plain_summary());
    let t = put(t, "HTMLInputElement"@, plain_summary());
    let t = put(t, "HTMLLabelElement"@, plain_summary());
    let t = put(t, "HTMLLegendElement"@, plain_summary());
    let t = put(t, "HTMLLIElement"@, plain_summary());
    let t = put(t, "HTMLLinkElement"@, plain_summary());
    let t = put(t, "HTMLMapElement"@, plain_summary());
    let t = put(t, "HTMLMediaElement"@, plain_summary());
    let t = put(t, "HTMLMenuElement"@, plain_summary());
    let t = put(t, "HTMLMetaElement"@, plain_summary());
    let t = put(t, "HTMLMeterElement"@, plain_summary());
    let t = put(t, "HTMLModElement"@, plain_summary());
    let t = put(t, "HTMLObjectElement"@, plain_summary());
    let t = put(t, "HTMLOListElement"@, plain_summary());
    let t = put(t, "HTMLOptGroupElement"@, plain_summary());
    let t = put(t, "HTMLOptionElement"@, plain_summary());
    t
}

/// `k` is none of the globals of part 2 of `add_globals_web`, nor below one.
#[verifier::opaque]
pub open spec fn outside_web_part2(k: Seq<char>) -> bool {
    &&& !under("HTMLEmbedElement"@, k)
    &&& !under("HTMLFencedFrameElement"@, k)
    &&& !under("HTMLFieldSetElement"@, k)
    &&& !under("HTMLFormElement"@, k)
    &&& !under("HTMLHeadElement"@, k)
    &&& !under("HTMLHeadingElement"@, k)
    &&& !under("HTMLHRElement"@, k)
    &&& !under("HTMLHtmlElement"@, k)
    &&& !under("HTMLIFrameElement"@, k)
    &&& !under("HTMLImageElement"@, k)
    &&& !under("HTMLInputElement"@, k)
    &&& !under("HTMLLabelElement"@, k)
    &&& !under("HTMLLegendElement"@, k)
    &&& !under("HTMLLIElement"@, k)
    &&& !under("HTMLLinkElement"@, k)
    &&& !under("HTMLMapElement"@, k)
    &&& !under("HTMLMediaElement"@, k)
    &&& !under("HTMLMenuElement"@, k)
    &&& !under("HTMLMetaElement"@, k)
    &&& !under("HTMLMeterElement"@, k)
    &&& !under("HTMLModElement"@, k)
    &&& !under("HTMLObjectElement"@, k)
    &&& !under("HTMLOListElement"@, k)
    &&& !under("HTMLOptGroupElement"@, k)
    &&& !under("HTMLOptionElement"@, k)
}

/// The globals of part 2 of `add_globals_web` have names.
proof fn lemma_web_part2_names()
    ensures
        "HTMLEmbedElement"@.len() > 0,
        "HTMLFencedFrameElement"@.len() > 0,
        "HTMLFieldSetElement"@.len() > 0,
        "HTMLFormElement"@.len() > 0,
        "HTMLHeadElement"@.len() > 0,
        "HTMLHeadingElement"@.len() > 0,
        "HTMLHRElement"@.len() > 0,
        "HTMLHtmlElement"@.len() > 0,
        "HTMLIFrameElement"@.len() > 0,
        "HTMLImageElement"@.len() > 0,
        "HTMLInputElement"@.len() > 0,
        "HTMLLabelElement"@.len() > 0,
        "HTMLLegendElement"@.len() > 0,
        "HTMLLIElement"@.len() > 0,
        "HTMLLinkElement"@.len() > 0,
        "HTMLMapElement"@.len() > 0,
        "HTMLMediaElement"@.len() > 0,
        "HTMLMenuElement"@.len() > 0,
        "HTMLMetaElement"@.len() > 0,
        "HTMLMeterElement"@.len() > 0,
        "HTMLModElement"@.len() > 0,
        "HTMLObjectElement"@.len() > 0,
        "HTMLOListElement"@.len() > 0,
        "HTMLOptGroupElement"@.len() > 0,
        "HTMLOptionElement"@.len() > 0,
{
    reveal_strlit("HTMLEmbedElement");
    reveal_strlit("HTMLFencedFrameElement");
    reveal_strlit("HTMLFieldSetElement");
    reveal_strlit("HTMLFormElement");
    reveal_strlit("HTMLHeadElement");
    reveal_strlit("HTMLHeadingElement");
    reveal_strlit("HTMLHRElement");
    reveal_strlit("HTMLHtmlElement");
    reveal_strlit("HTMLIFrameElement");
    reveal_strlit("HTMLImageElement");
    reveal_strlit("HTMLInputElement");
    reveal_strlit("HTMLLabelElement");
    reveal_strlit("HTMLLegendElement");
    reveal_strlit("HTMLLIElement");
    reveal_strlit("HTMLLinkElement");
    reveal_strlit("HTMLMapElement");
    reveal_strlit("HTMLMediaElement");
    reveal_strlit("HTMLMenuElement");
    reveal_strlit("HTMLMetaElement");
    reveal_strlit("HTMLMeterElement");
    reveal_strlit("HTMLModElement");
    reveal_strlit("HTMLObjectElement");
    reveal_strlit("HTMLOListElement");
    reveal_strlit("HTMLOptGroupElement");
    reveal_strlit("HTMLOptionElement");
}

fn add_globals_web_part2(g: &mut Globals)
    ensures
        final(g).root() == old(g).root(),
        final(g).summary() == web_globals_part2(old(g).summary()),
        forall|k: Seq<char>| outside_web_part2(k) ==> #[trigger] keeps_entry(old(g).summary(), final(g).summary(), k),
{
    proof {
        reveal(web_globals_part2);
        reveal(outside_web_part2);
        lemma_web_part2_names();
    }
    let ghost start = g.summary();
    g.set("HTMLEmbedElement", object());
    g.set("HTMLFencedFrameElement", object());
    g.set("HTMLFieldSetElement", object());
    g.set("HTMLFormElement", object());
    g.set("HTMLHeadElement", object());
    g.set("HTMLHeadingElement", object());
    g.set("HTMLHRElement", object());
    g.set("HTMLHtmlElement", object());
    g.set("HTMLIFrameElement", object());
    g.set("HTMLImageElement", object());
    g.set("HTMLInputElement", object());
    g.set("HTMLLabelElement", object());
    g.set("HTMLLegendElement", object());
    g.set("HTMLLIElement", object());
    g.set("HTMLLinkElement", object());
    g.set("HTMLMapElement", object());
    g.set("HTMLMediaElement", object());
    g.set("HTMLMenuElement", object());
    g.set("HTMLMetaElement", object());
    g.set("HTMLMeterElement", object());
    g.set("HTMLModElement", object());
    g.set("HTMLObjectElement", object());
    g.set("HTMLOListElement", object());
    g.set("HTMLOptGroupElement", object());
    g.set("HTMLOptionElement", object());
    assert forall|k: Seq<char>| outside_web_part2(k) implies #[trigger] keeps_entry(start, g.summary(), k) by {}
}

/// The table of values after part 3 of `add_globals_web`.
#[verifier::opaque]
pub open spec fn web_globals_part3(t: Map<Seq<char>, GlobalView>) -> Map<Seq<char>, GlobalView> {
    let t = put(t, "HTMLOutputElement"@, plain_summary());
    let t = put(t, "HTMLParagraphElement"@, plain_summary());
    let t = put(t, "HTMLPictureElement"@, plain_summary());
    let t = put(t, "HTMLPreElement"@, plain_summary());
    let t = put(t, "HTMLProgressElement"@, plain_summary());
    let t = put(t, "HTMLQuoteElement"@, plain_summary());
    let t = put(t, "HTMLScriptElement"@, plain_summary());
    let t = put(t, "HTMLSelectElement"@, plain_summary());
    let t = put(t, "HTMLSlotElement"@, plain_summary());
    let t = put(t, "HTMLSourceElement"@, plain_summary());
    let t = put(t, "HTMLSpanElement"@, plain_summary());
    let t = put(t, "HTMLStyleElement"@, plain_summary());
    let t = put(t, "HTMLTableCaptionElement"@, plain_summary());
    let t = put(t, "HTMLTableCellElement"@, plain_summary());
    let t = put(t, "HTMLTableColElement"@, plain_summary());
    let t = put(t, "HTMLTableElement"@, plain_summary());
    let t = put(t, "HTMLTableRowElement"@, plain_summary());
    let t = put(t, "HTMLTableSectionElement"@, plain_summary());
    let t = put(t, "HTMLTemplateElement"@, plain_summary());
    let t = put(t, "HTMLTextAreaElement"@, plain_summary());
    let t = put(t, "HTMLTimeElement"@, plain_summary());
    let t = put(t, "HTMLTitleElement"@, plain_summary());
    let t = put(t, "HTMLTrackElement"@, plain_summary());
    let t = put(t, "HTMLUListElement"@, plain_summary());
    let t = put(t, "HTMLUnknownElement"@, plain_summary());
    t
}

/// `k` is none of the globals of part 3 of `add_globals_web`, nor below one.
#[verifier::opaque]
pub open spec fn outside_web_part3(k: Seq<char>) -> bool {
    &&& !under("HTMLOutputElement"@, k)
    &&& !under("HTMLParagraphElement"@, k)
    &&& !under("HTMLPictureElement"@, k)
    &&& !under("HTMLPreElement"@, k)
    &&& !under("HTMLProgressElement"@, k)
    &&& !under("HTMLQuoteElement"@, k)
    &&& !under("HTMLScriptElement"@, k)
    &&& !under("HTMLSelectElement"@, k)
    &&& !under("HTMLSlotElement"@, k)
    &&& !under("HTMLSourceElement"@, k)
    &&& !under("HTMLSpanElement"@, k)
    &&& !under("HTMLStyleElement"@, k)
    &&& !under("HTMLTableCaptionElement"@, k)
    &&& !under("HTMLTableCellElement"@, k)
    &&& !under("HTMLTableColElement"@, k)
    &&& !under("HTMLTableElement"@, k)
    &&& !under("HTMLTableRowElement"@, k)
    &&& !under("HTMLTableSectionElement"@, k)
    &&& !under("HTMLTemplateElement"@, k)
    &&& !under("HTMLTextAreaElement"@, k)
    &&& !under("HTMLTimeElement"@, k)
    &&& !under("HTMLTitleElement"@, k)
    &&& !under("HTMLTrackElement"@, k)
    &&& !under("HTMLUListElement"@, k)
    &&& !under("HTMLUnknownElement"@, k)
}

/// The globals of part 3 of `add_globals_web` have names.
proof fn lemma_web_part3_names()
    ensures
        "HTMLOutputElement"@.len() > 0,
        "HTMLParagraphElement"@.len() > 0,
        "HTMLPictureElement"@.len() > 0,
        "HTMLPreElement"@.len() > 0,
        "HTMLProgressElement"@.len() > 0,
        "HTMLQuoteElement"@.len() > 0,
        "HTMLScriptElement"@.len() > 0,
        "HTMLSelectElement"@.len() > 0,
        "HTMLSlotElement"@.len() > 0,
        "HTMLSourceElement"@.len() > 0,
        "HTMLSpanElement"@.len() > 0,
        "HTMLStyleElement"@.len() > 0,
        "HTMLTableCaptionElement"@.len() > 0,
        "HTMLTableCellElement"@.len() > 0,
        "HTMLTableColElement"@.len() > 0,
        "HTMLTableElement"@.len() > 0,
        "HTMLTableRowElement"@.len() > 0,
        "HTMLTableSectionElement"@.len() > 0,
        "HTMLTemplateElement"@.len() > 0,
        "HTMLTextAreaElement"@.len() > 0,
        "HTMLTimeElement"@.len() > 0,
        "HTMLTitleElement"@.len() > 0,
        "HTMLTrackElement"@.len() > 0,
        "HTMLUListElement"@.len() > 0,
        "HTMLUnknownElement"@.len() > 0,
{
    reveal_strlit("HTMLOutputElement");
    reveal_strlit("HTMLParagraphElement");
    reveal_strlit("HTMLPictureElement");
    reveal_strlit("HTMLPreElement");
    reveal_strlit("HTMLProgressElement");
    reveal_strlit("HTMLQuoteElement");
    reveal_strlit("HTMLScriptElement");
    reveal_strlit("HTMLSelectElement");
    reveal_strlit("HTMLSlotElement");
    reveal_strlit("HTMLSourceElement");
    reveal_strlit("HTMLSpanElement");
    reveal_strlit("HTMLStyleElement");
    reveal_strlit("HTMLTableCaptionElement");
    reveal_strlit("HTMLTableCellElement");
    reveal_strlit("HTMLTableColElement");
    reveal_strlit("HTMLTableElement");
    reveal_strlit("HTMLTableRowElement");
    reveal_strlit("HTMLTableSectionElement");
    reveal_strlit("HTMLTemplateElement");
    reveal_strlit("HTMLTextAreaElement");
    reveal_strlit("HTMLTimeElement");
    reveal_strlit("HTMLTitleElement");
    reveal_strlit("HTMLTrackElement");
    reveal_strlit("HTMLUListElement");
    reveal_strlit("HTMLUnknownElement");
}

fn add_globals_web_part3(g: &mut Globals)
    ensures
        final(g).root() == old(g).root(),
        final(g).summary() == web_globals_part3(old(g).summary()),
        forall|k: Seq<char>| outside_web_part3(k) ==> #[trigger] keeps_entry(old(g).summary(), final(g).summary(), k),
{
    proof {
        reveal(web_globals_part3);
        reveal(outside_web_part3);
        lemma_web_part3_names();
    }
    let ghost start = g.summary();
    g.set("HTMLOutputElement", object());
    g.set("HTMLParagraphElement", object());
    g.set("HTMLPictureElement", object());
    g.set("HTMLPreElement", object());
    g.set("HTMLProgressElement", object());
    g.set("HTMLQuoteElement", object());
    g.set("HTMLScriptElement", object());
    g.set("HTMLSelectElement", object());
    g.set("HTMLSlotElement", object());
    g.set("HTMLSourceElement", object());
    g.set("HTMLSpanElement", object());
    g.set("HTMLStyleElement", object());
    g.set("HTMLTableCaptionElement", object());
    g.set("HTMLTableCellElement", object());
    g.set("HTMLTableColElement", object());
    g.set("HTMLTableElement", object());
    g.set("HTMLTableRowElement", object());
    g.set("HTMLTableSectionElement", object());
    g.set("HTMLTemplateElement", object());
    g.set("HTMLTextAreaElement", object());
    g.set("HTMLTimeElement", object());
    g.set("HTMLTitleElement", object());
    g.set("HTMLTrackElement", object());
    g.set("HTMLUListElement", object());
    g.set("HTMLUnknownElement", object());
    assert forall|k: Seq<char>| outside_web_part3(k) implies #[trigger] keeps_entry(start, g.summary(), k) by {}
}

/// The table of values after part 4 of `add_globals_web`.
#[verifier::opaque]
pub open spec fn web_globals_part4(t: Map<Seq<char>, GlobalView>) -> Map<Seq<char>, GlobalView> {
    let t = put(t, "HTMLVideoElement"@, plain_summary());
    let t = put(t, "SVGElement"@, plain_summary());
    let t = put(t, "AnimationEvent"@, plain_summary());
    let t = put(t, "AnimationPlaybackEvent"@, plain_summary());
    let t = put(t, "BeforeUnloadEvent"@, plain_summary());
    let t = put(t, "CloseEvent"@, plain_summary());
    let t = put(t, "CommandEvent"@, plain_summary());
    let t = put(t, "CompositionEvent"@, plain_summary());
    let t = put(t, "CustomEvent"@, plain_summary());
    let t = put(t, "DragEvent"@, plain_summary());
    let t = put(t, "ErrorEvent"@, plain_summary());
    let t = put(t, "FetchEvent"@, plain_summary());
    let t = put(t, "FocusEvent"@, plain_summary());
    let t = put(t, "FontFaceSetLoadEvent"@, plain_summary());
    let t = put(t, "FormDataEvent"@, plain_summary());
    let t = put(t, "GamepadEvent"@, plain_summary());
    let t = put(t, "HashChangeEvent"@, plain_summary());
    let t = put(t, "InputEvent"@, plain_summary());
    let t = put(t, "InstallEvent"@, plain_summary());
    let t = put(t, "KeyboardEvent"@, plain_summary());
    let t = put(t, "MessageEvent"@, plain_summary());
    let t = put(t, "MouseEvent"@, plain_summary());
    let t = put(t, "PointerEvent"@, plain_summary());
    let t = put(t, "ProgressEvent"@, plain_summary());
    let t = put(t, "PromiseRejectionEvent"@, plain_summary());
    t
}

/// `k` is none of the globals of part 4 of `add_globals_web`, nor below one.
#[verifier::opaque]
pub open spec fn outside_web_part4(k: Seq<char>) -> bool {
    &&& !under("HTMLVideoElement"@, k)
    &&& !under("SVGElement"@, k)
    &&& !under("AnimationEvent"@, k)
    &&& !under("AnimationPlaybackEvent"@, k)
    &&& !under("BeforeUnloadEvent"@, k)
    &&& !under("CloseEvent"@, k)
    &&& !under("CommandEvent"@, k)
    &&& !under("CompositionEvent"@, k)
    &&& !under("CustomEvent"@, k)
    &&& !under("DragEvent"@, k)
    &&& !under("ErrorEvent"@, k)
    &&& !under("FetchEvent"@, k)
    &&& !under("FocusEvent"@, k)
    &&& !under("FontFaceSetLoadEvent"@, k)
    &&& !under("FormDataEvent"@, k)
    &&& !under("GamepadEvent"@, k)
    &&& !under("HashChangeEvent"@, k)
    &&& !under("InputEvent"@, k)
    &&& !under("InstallEvent"@, k)
    &&& !under("KeyboardEvent"@, k)
    &&& !under("MessageEvent"@, k)
    &&& !under("MouseEvent"@, k)
    &&& !under("PointerEvent"@, k)
    &&& !under("ProgressEvent"@, k)
    &&& !under("PromiseRejectionEvent"@, k)
}

/// The globals of part 4 of `add_globals_web` have names.
proof fn lemma_web_part4_names()
    ensures
        "HTMLVideoElement"@.len() > 0,
        "SVGElement"@.len() > 0,
        "AnimationEvent"@.len() > 0,
        "AnimationPlaybackEvent"@.len() > 0,
        "BeforeUnloadEvent"@.len() > 0,
        "CloseEvent"@.len() > 0,
        "CommandEvent"@.len() > 0,
        "CompositionEvent"@.len() > 0,
        "CustomEvent"@.len() > 0,
        "DragEvent"@.len() > 0,
        "ErrorEvent"@.len() > 0,
        "FetchEvent"@.len() > 0,
        "FocusEvent"@.len() > 0,
        "FontFaceSetLoadEvent"@.len() > 0,
        "FormDataEvent"@.len() > 0,
        "GamepadEvent"@.len() > 0,
        "HashChangeEvent"@.len() > 0,
        "InputEvent"@.len() > 0,
        "InstallEvent"@.len() > 0,
        "KeyboardEvent"@.len() > 0,
        "MessageEvent"@.len() > 0,
        "MouseEvent"@.len() > 0,
        "PointerEvent"@.len() > 0,
        "ProgressEvent"@.len() > 0,
        "PromiseRejectionEvent"@.len() > 0,
{
    reveal_strlit("HTMLVideoElement");
    reveal_strlit("SVGElement");
    reveal_strlit("AnimationEvent");
    reveal_strlit("AnimationPlaybackEvent");
    reveal_strlit("BeforeUnloadEvent");
    reveal_strlit("CloseEvent");
    reveal_strlit("CommandEvent");
    reveal_strlit("CompositionEvent");
    reveal_strlit("CustomEvent");
    reveal_strlit("DragEvent");
    reveal_strlit("ErrorEvent");
    reveal_strlit("FetchEvent");
    reveal_strlit("FocusEvent");
    reveal_strlit("FontFaceSetLoadEvent");
    reveal_strlit("FormDataEvent");
    reveal_strlit("GamepadEvent");
    reveal_strlit("HashChangeEvent");
    reveal_strlit("InputEvent");
    reveal_strlit("InstallEvent");
    reveal_strlit("KeyboardEvent");
    reveal_strlit("MessageEvent");
    reveal_strlit("MouseEvent");
    reveal_strlit("PointerEvent");
    reveal_strlit("ProgressEvent");
    reveal_strlit("PromiseRejectionEvent");
}

fn add_globals_web_part4(g: &mut Globals)
    ensures
        final(g).root() == old(g).root(),
        final(g).summary() == web_globals_part4(old(g).summary()),
        forall|k: Seq<char>| outside_web_part4(k) ==> #[trigger] keeps_entry(old(g).summary(), final(g).summary(), k),
{
    proof {
        reveal(web_globals_part4);
        reveal(outside_web_part4);
        lemma_web_part4_names();
    }
    let ghost start = g.summary();
    g.set("HTMLVideoElement", object());
    g.set("SVGElement", object());

    g.set("AnimationEvent", object());
    g.set("AnimationPlaybackEvent", object());
    g.set("BeforeUnloadEvent", object());
    g.set("CloseEvent", object());
    g.set("CommandEvent", object());
    g.set("CompositionEvent", object());
    g.set("CustomEvent", object());
    g.set("DragEvent", object());
    g.set("ErrorEvent", object());
    g.set("FetchEvent", object());
    g.set("FocusEvent", object());
    g.set("FontFaceSetLoadEvent", object());
    g.set("FormDataEvent", object());
    g.set("GamepadEvent", object());
    g.set("HashChangeEvent", object());
    g.set("InputEvent", object());
    g.set("InstallEvent", object());
    g.set("KeyboardEvent", object());
    g.set("MessageEvent", object());
    g.set("MouseEvent", object());
    g.set("PointerEvent", object());
    g.set("ProgressEvent", object());
    g.set("PromiseRejectionEvent", object());
    assert forall|k: Seq<char>| outside_web_part4(k) implies #[trigger] keeps_entry(start, g.summary(), k) by {}
}

/// The table of values after part 5 of `add_globals_web`.
#[verifier::opaque]
pub open spec fn web_globals_part5(t: Map<Seq<char>, GlobalView>) -> Map<Seq<char>, GlobalView> {
    let t = put(t, "SubmitEvent"@, plain_summary());
    let t = put(t, "TimeEvent"@, plain_summary());
    let t = put(t, "ToggleEvent"@, plain_summary());
    let t = put(t, "TouchEvent"@, plain_summary());
    let t = put(t, "TrackEvent"@, plain_summary());
    let t = put(t, "UIEvent"@, plain_summary());
    let t = put(t, "WheelEvent"@, plain_summary());
    let t = put(t, "navigator"@, plain_summary());
    let t = put(t, "document"@, plain_summary());
    let t = put(t, "crypto"@, plain_summary());
    let t = put(t, "crossOriginIsolated"@, plain_summary());
    let t = put(t, "customElements"@, plain_summary());
    let t = put(t, "frameElement"@, plain_summary());
    let t = put(t, "history"@, plain_summary());
    let t = put(t, "isSecureContext"@, plain_summary());
    let t = put(t, "localStorage"@, plain_summary());
    let t = put(t, "sessionStorage"@, plain_summary());
    let t = put(t, "trustedTypes"@, plain_summary());
    let t = put(t, "setTimeout"@, plain_summary());
    let t = put(t, "clearTimeout"@, plain_summary());
    let t = put(t, "queueMicrotask"@, plain_summary());
    let t = put(t, "performance"@, plain_summary());
    let t = put(t, "MessageChannel"@, plain_summary());
    let t = put(t, "MessagePort"@, plain_summary());
    let t = put(t, "BroadcastChannel"@, plain_summary());
    t
}

/// `k` is none of the globals of part 5 of `add_globals_web`, nor below one.
#[verifier::opaque]
pub open spec fn outside_web_part5(k: Seq<char>) -> bool {
    &&& !under("SubmitEvent"@, k)
    &&& !under("TimeEvent"@, k)
    &&& !under("ToggleEvent"@, k)
    &&& !under("TouchEvent"@, k)
    &&& !under("TrackEvent"@, k)
    &&& !under("UIEvent"@, k)
    &&& !under("WheelEvent"@, k)
    &&& !under("navigator"@, k)
    &&& !under("document"@, k)
    &&& !under("crypto"@, k)
    &&& !under("crossOriginIsolated"@, k)
    &&& !under("customElements"@, k)
    &&& !under("frameElement"@, k)
    &&& !under("history"@, k)
    &&& !under("isSecureContext"@, k)
    &&& !under("localStorage"@, k)
    &&& !under("sessionStorage"@, k)
    &&& !under("trustedTypes"@, k)
    &&& !under("setTimeout"@, k)
    &&& !under("clearTimeout"@, k)
    &&& !under("queueMicrotask"@, k)
    &&& !under("performance"@, k)
    &&& !under("MessageChannel"@, k)
    &&& !under("MessagePort"@, k)
    &&& !under("BroadcastChannel"@, k)
}

/// The globals of part 5 of `add_globals_web` have names.
proof fn lemma_web_part5_names()
    ensures
        "SubmitEvent"@.len() > 0,
        "TimeEvent"@.len() > 0,
        "ToggleEvent"@.len() > 0,
        "TouchEvent"@.len() > 0,
        "TrackEvent"@.len() > 0,
        "UIEvent"@.len() > 0,
        "WheelEvent"@.len() > 0,
        "navigator"@.len() > 0,
        "document"@.len() > 0,
        "crypto"@.len() > 0,
        "crossOriginIsolated"@.len() > 0,
        "customElements"@.len() > 0,
        "frameElement"@.len() > 0,
        "history"@.len() > 0,
        "isSecureContext"@.len() > 0,
        "localStorage"@.len() > 0,
        "sessionStorage"@.len() > 0,
        "trustedTypes"@.len() > 0,
        "setTimeout"@.len() > 0,
        "clearTimeout"@.len() > 0,
        "queueMicrotask"@.len() > 0,
        "performance"@.len() > 0,
        "MessageChannel"@.len() > 0,
        "MessagePort"@.len() > 0,
        "BroadcastChannel"@.len() > 0,
{
    reveal_strlit("SubmitEvent");
    reveal_strlit("TimeEvent");
    reveal_strlit("ToggleEvent");
    reveal_strlit("TouchEvent");
    reveal_strlit("TrackEvent");
    reveal_strlit("UIEvent");
    reveal_strlit("WheelEvent");
    reveal_strlit("navigator");
    reveal_strlit("document");
    reveal_strlit("crypto");
    reveal_strlit("crossOriginIsolated");
    reveal_strlit("customElements");
    reveal_strlit("frameElement");
    reveal_strlit("history");
    reveal_strlit("isSecureContext");
    reveal_strlit("localStorage");
    reveal_strlit("sessionStorage");
    reveal_strlit("trustedTypes");
    reveal_strlit("setTimeout");
    reveal_strlit("clearTimeout");
    reveal_strlit("queueMicrotask");
    reveal_strlit("performance");
    reveal_strlit("MessageChannel");
    reveal_strlit("MessagePort");
    reveal_strlit("BroadcastChannel");
}

fn add_globals_web_part5(g: &mut Globals)
    ensures
        final(g).root() == old(g).root(),
        final(g).summary() == web_globals_part5(old(g).summary()),
        forall|k: Seq<char>| outside_web_part5(k) ==> #[trigger] keeps_entry(old(g).summary(), final(g).summary(), k),
{
    proof {
        reveal(web_globals_part5);
        reveal(outside_web_part5);
        lemma_web_part5_names();
    }
    let ghost start = g.summary();
    g.set("SubmitEvent", object());
    g.set("TimeEvent", object());
    g.set("ToggleEvent", object());
    g.set("TouchEvent", object());
    g.set("TrackEvent", object());
    g.set("UIEvent", object());
    g.set("WheelEvent", object());

    g.set("navigator", object());
    g.set("document", object());
    g.set("crypto", object());
    g.set("crossOriginIsolated", object());
    g.set("customElements", object());
    g.set("frameElement", object());
    g.set("history", object());
    g.set("isSecureContext", object());
    g.set("localStorage", object());
    g.set("sessionStorage", object());
    g.set("trustedTypes", object());
    g.set("setTimeout", object());
    g.set("clearTimeout", object());
    g.set("queueMicrotask", object());
    g.set("performance", object());

    g.set("MessageChannel", object());
    g.set("MessagePort", object());
    g.set("BroadcastChannel", object());
    assert forall|k: Seq<char>| outside_web_part5(k) implies #[trigger] keeps_entry(start, g.summary(), k) by {}
}

/// The table of values after part 6 of `add_globals_web`.
#[verifier::opaque]
pub open spec fn web_globals_part6(t: Map<Seq<char>, GlobalView>) -> Map<Seq<char>, GlobalView> {
    let t = put(t, "requestAnimationFrame"@, plain_summary());
    let t = put(t, "cancelAnimationFrame"@, plain_summary());
    let t = put(t, "Blob"@, plain_summary());
    let t = put(t, "FormData"@, plain_summary());
    let t = put(t, "XMLHttpRequest"@, plain_summary());
    let t = put(t, "Request"@, plain_summary());
    let t = put(t, "fetch"@, plain_summary());
    let t = put(t, "ReadableStream"@, plain_summary());
    let t = put(t, "ReadableStreamDefaultReader"@, plain_summary());
    let t = put(t, "ReadableStreamDefaultController"@, plain_summary());
    let t = put(t, "WritableStream"@, plain_summary());
    let t = put(t, "WritableStreamDefaultWriter"@, plain_summary());
    let t = put(t, "WritableStreamDefaultController"@, plain_summary());
    let t = put(t, "TransformStream"@, plain_summary());
    let t = put(t, "TransformStreamDefaultController"@, plain_summary());
    let t = put(t, "ByteLengthQueuingStrategy"@, plain_summary());
    let t = put(t, "CountQueuingStrategy"@, plain_summary());
    let t = put(t, "ReadableStreamBYOBReader"@, plain_summary());
    let t = put(t, "ReadableByteStreamController"@, plain_summary());
    let t = put(t, "ReadableStreamBYOBRequest"@, plain_summary());
    let t = put(t, "Clipboard"@, plain_summary());
    let t = put(t, "ClipboardEvent"@, plain_summary());
    let t = put(t, "ClipboardItem"@, plain_summary());
    let t = put(t, "AnimationEvent"@, plain_summary());
    let t = put(t, "CaretPosition"@, plain_summary());
    t
}

/// `k` is none of the globals of part 6 of `add_globals_web`, nor below one.
#[verifier::opaque]
pub open spec fn outside_web_part6(k: Seq<char>) -> bool {
    &&& !under("requestAnimationFrame"@, k)
    &&& !under("cancelAnimationFrame"@, k)
    &&& !under("Blob"@, k)
    &&& !under("FormData"@, k)
    &&& !under("XMLHttpRequest"@, k)
    &&& !under("Request"@, k)
    &&& !under("fetch"@, k)
    &&& !under("ReadableStream"@, k)
    &&& !under("ReadableStreamDefaultReader"@, k)
    &&& !under("ReadableStreamDefaultController"@, k)
    &&& !under("WritableStream"@, k)
    &&& !under("WritableStreamDefaultWriter"@, k)
    &&& !under("WritableStreamDefaultController"@, k)
    &&& !under("TransformStream"@, k)
    &&& !under("TransformStreamDefaultController"@, k)
    &&& !under("ByteLengthQueuingStrategy"@, k)
    &&& !under("CountQueuingStrategy"@, k)
    &&& !under("ReadableStreamBYOBReader"@, k)
    &&& !under("ReadableByteStreamController"@, k)
    &&& !under("ReadableStreamBYOBRequest"@, k)
    &&& !under("Clipboard"@, k)
    &&& !under("ClipboardEvent"@, k)
    &&& !under("ClipboardItem"@, k)
    &&& !under("AnimationEvent"@, k)
    &&& !under("CaretPosition"@, k)
}

/// The globals of part 6 of `add_globals_web` have names.
proof fn lemma_web_part6_names()
    ensures
        "requestAnimationFrame"@.len() > 0,
        "cancelAnimationFrame"@.len() > 0,
        "Blob"@.len() > 0,
        "FormData"@.len() > 0,
        "XMLHttpRequest"@.len() > 0,
        "Request"@.len() > 0,
        "fetch"@.len() > 0,
        "ReadableStream"@.len() > 0,
        "ReadableStreamDefaultReader"@.len() > 0,
        "ReadableStreamDefaultController"@.len() > 0,
        "WritableStream"@.len() > 0,
        "WritableStreamDefaultWriter"@.len() > 0,
        "WritableStreamDefaultController"@.len() > 0,
        "TransformStream"@.len() > 0,
        "TransformStreamDefaultController"@.len() > 0,
        "ByteLengthQueuingStrategy"@.len() > 0,
        "CountQueuingStrategy"@.len() > 0,
        "ReadableStreamBYOBReader"@.len() > 0,
        "ReadableByteStreamController"@.len() > 0,
        "ReadableStreamBYOBRequest"@.len() > 0,
        "Clipboard"@.len() > 0,
        "ClipboardEvent"@.len() > 0,
        "ClipboardItem"@.len() > 0,
        "AnimationEvent"@.len() > 0,
        "CaretPosition"@.len() > 0,
{
    reveal_strlit("requestAnimationFrame");
    reveal_strlit("cancelAnimationFrame");
    reveal_strlit("Blob");
    reveal_strlit("FormData");
    reveal_strlit("XMLHttpRequest");
    reveal_strlit("Request");
    reveal_strlit("fetch");
    reveal_strlit("ReadableStream");
    reveal_strlit("ReadableStreamDefaultReader");
    reveal_strlit("ReadableStreamDefaultController");
    reveal_strlit("WritableStream");
    reveal_strlit("WritableStreamDefaultWriter");
    reveal_strlit("WritableStreamDefaultController");
    reveal_strlit("TransformStream");
    reveal_strlit("TransformStreamDefaultController");
    reveal_strlit("ByteLengthQueuingStrategy");
    reveal_strlit("CountQueuingStrategy");
    reveal_strlit("ReadableStreamBYOBReader");
    reveal_strlit("ReadableByteStreamController");
    reveal_strlit("ReadableStreamBYOBRequest");
    reveal_strlit("Clipboard");
    reveal_strlit("ClipboardEvent");
    reveal_strlit("ClipboardItem");
    reveal_strlit("AnimationEvent");
    reveal_strlit("CaretPosition");
}

fn add_globals_web_part6(g: &mut Globals)
    ensures
        final(g).root() == old(g).root(),
        final(g).summary() == web_globals_part6(old(g).summary()),
        forall|k: Seq<char>| outside_web_part6(k) ==> #[trigger] keeps_entry(old(g).summary(), final(g).summary(), k),
{
    proof {
        reveal(web_globals_part6);
        reveal(outside_web_part6);
        lemma_web_part6_names();
    }
    let ghost start = g.summary();

    g.set("requestAnimationFrame", object());
    g.set("cancelAnimationFrame", object());

    g.set("Blob", object());
    g.set("FormData", object());
    g.set("XMLHttpRequest", object());
    g.set("Request", object());
    g.set("fetch", object());

    // https://developer.mozilla.org/en-US/docs/Web/API/Streams_API
    g.set("ReadableStream", object());
    g.set("ReadableStreamDefaultReader", object());
    g.set("ReadableStreamDefaultController", object());
    g.set("WritableStream", object());
    g.set("WritableStreamDefaultWriter", object());
    g.set("WritableStreamDefaultController", object());
    g.set("TransformStream", object());
    g.set("TransformStreamDefaultController", object());
    g.set("ByteLengthQueuingStrategy", object());
    g.set("CountQueuingStrategy", object());
    g.set("ReadableStreamBYOBReader", object());
    g.set("ReadableByteStreamController", object());
    g.set("ReadableStreamBYOBRequest", object());

    // https://developer.mozilla.org/en-US/docs/Web/API/Clipboard_API
    g.set("Clipboard", object());
    g.set("ClipboardEvent", object());
    g.set("ClipboardItem", object());

    // https://developer.mozilla.org/en-US/docs/Web/API/CSS_Object_Model
    g.set("AnimationEvent", object());
    g.set("CaretPosition", object());
    assert forall|k: Seq<char>| outside_web_part6(k) implies #[trigger] keeps_entry(start, g.summary(), k) by {}
}

/// The table of values after part 7 of `add_globals_web`.
#[verifier::opaque]
pub open spec fn web_globals_part7(t: Map<Seq<char>, GlobalView>) -> Map<Seq<char>, GlobalView> {
    let t = put(t, "CSS"@, {
        let o = plain_summary();
        let o = with_static_summary(o, "highlights"@, plain_summary());
        o
    });
    let t = put(t, "CSSConditionRule"@, plain_summary());
    let t = put(t, "CSSCounterStyleRule"@, plain_summary());
    let t = put(t, "CSSFontFaceRule"@, plain_summary());
    let t = put(t, "CSSFontFeatureValuesMap"@, plain_summary());
    let t = put(t, "CSSFontFeatureValuesRule"@, plain_summary());
    let t = put(t, "CSSGroupingRule"@, plain_summary());
    let t = put(t, "CSSImportRule"@, plain_summary());
    let t = put(t, "CSSKeyframeRule"@, plain_summary());
    let t = put(t, "CSSKeyframesRule"@, plain_summary());
    let t = put(t, "CSSMarginRule"@, plain_summary());
    let t = put(t, "CSSMediaRule"@, plain_summary());
    let t = put(t, "CSSNamespaceRule"@, plain_summary());
    let t = put(t, "CSSPageRule"@, plain_summary());
    let t = put(t, "CSSPositionTryRule"@, plain_summary());
    let t = put(t, "CSSPositionTryDescriptors"@, plain_summary());
    let t = put(t, "CSSRule"@, plain_summary());
    let t = put(t, "CSSRuleList"@, plain_summary());
    let t = put(t, "CSSStartingStyleRule"@, plain_summary());
    let t = put(t, "CSSStyleDeclaration"@, plain_summary());
    let t = put(t, "CSSStyleSheet"@, plain_summary());
    let t = put(t, "CSSStyleRule"@, plain_summary());
    let t = put(t, "CSSSupportRule"@, plain_summary());
    let t = put(t, "CSSNestedDeclarations"@, plain_summary());
    let t = put(t, "FontFace"@, plain_summary());
    t
}

/// `k` is none of the globals of part 7 of `add_globals_web`, nor below one.
#[verifier::opaque]
pub open spec fn outside_web_part7(k: Seq<char>) -> bool {
    &&& !under("CSS"@, k)
    &&& !under("CSSConditionRule"@, k)
    &&& !under("CSSCounterStyleRule"@, k)
    &&& !under("CSSFontFaceRule"@, k)
    &&& !under("CSSFontFeatureValuesMap"@, k)
    &&& !under("CSSFontFeatureValuesRule"@, k)
    &&& !under("CSSGroupingRule"@, k)
    &&& !under("CSSImportRule"@, k)
    &&& !under("CSSKeyframeRule"@, k)
    &&& !under("CSSKeyframesRule"@, k)
    &&& !under("CSSMarginRule"@, k)
    &&& !under("CSSMediaRule"@, k)
    &&& !under("CSSNamespaceRule"@, k)
    &&& !under("CSSPageRule"@, k)
    &&& !under("CSSPositionTryRule"@, k)
    &&& !under("CSSPositionTryDescriptors"@, k)
    &&& !under("CSSRule"@, k)
    &&& !under("CSSRuleList"@, k)
    &&& !under("CSSStartingStyleRule"@, k)
    &&& !under("CSSStyleDeclaration"@, k)
    &&& !under("CSSStyleSheet"@, k)
    &&& !under("CSSStyleRule"@, k)
    &&& !under("CSSSupportRule"@, k)
    &&& !under("CSSNestedDeclarations"@, k)
    &&& !under("FontFace"@, k)
}

/// The globals of part 7 of `add_globals_web` have names.
proof fn lemma_web_part7_names()
    ensures
        "CSS"@.len() > 0,
        "CSSConditionRule"@.len() > 0,
        "CSSCounterStyleRule"@.len() > 0,
        "CSSFontFaceRule"@.len() > 0,
        "CSSFontFeatureValuesMap"@.len() > 0,
        "CSSFontFeatureValuesRule"@.len() > 0,
        "CSSGroupingRule"@.len() > 0,
        "CSSImportRule"@.len() > 0,
        "CSSKeyframeRule"@.len() > 0,
        "CSSKeyframesRule"@.len() > 0,
        "CSSMarginRule"@.len() > 0,
        "CSSMediaRule"@.len() > 0,
        "CSSNamespaceRule"@.len() > 0,
        "CSSPageRule"@.len() > 0,
        "CSSPositionTryRule"@.len() > 0,
        "CSSPositionTryDescriptors"@.len() > 0,
        "CSSRule"@.len() > 0,
        "CSSRuleList"@.len() > 0,
        "CSSStartingStyleRule"@.len() > 0,
        "CSSStyleDeclaration"@.len() > 0,
        "CSSStyleSheet"@.len() > 0,
        "CSSStyleRule"@.len() > 0,
        "CSSSupportRule"@.len() > 0,
        "CSSNestedDeclarations"@.len() > 0,
        "FontFace"@.len() > 0,
{
    reveal_strlit("CSS");
    reveal_strlit("CSSConditionRule");
    reveal_strlit("CSSCounterStyleRule");
    reveal_strlit("CSSFontFaceRule");
    reveal_strlit("CSSFontFeatureValuesMap");
    reveal_strlit("CSSFontFeatureValuesRule");
    reveal_strlit("CSSGroupingRule");
    reveal_strlit("CSSImportRule");
    reveal_strlit("CSSKeyframeRule");
    reveal_strlit("CSSKeyframesRule");
    reveal_strlit("CSSMarginRule");
    reveal_strlit("CSSMediaRule");
    reveal_strlit("CSSNamespaceRule");
    reveal_strlit("CSSPageRule");
    reveal_strlit("CSSPositionTryRule");
    reveal_strlit("CSSPositionTryDescriptors");
    reveal_strlit("CSSRule");
    reveal_strlit("CSSRuleList");
    reveal_strlit("CSSStartingStyleRule");
    reveal_strlit("CSSStyleDeclaration");
    reveal_strlit("CSSStyleSheet");
    reveal_strlit("CSSStyleRule");
    reveal_strlit("CSSSupportRule");
    reveal_strlit("CSSNestedDeclarations");
    reveal_strlit("FontFace");
}

fn add_globals_web_part7(g: &mut Globals)
    ensures
        final(g).root() == old(g).root(),
        final(g).summary() == web_globals_part7(old(g).summary()),
        forall|k: Seq<char>| outside_web_part7(k) ==> #[trigger] keeps_entry(old(g).summary(), final(g).summary(), k),
{
    proof {
        reveal(web_globals_part7);
        reveal(outside_web_part7);
        lemma_web_part7_names();
    }
    let ghost start = g.summary();
    g.set("CSS", object().with_static("highlights", object()));
    g.set("CSSConditionRule", object());
    g.set("CSSCounterStyleRule", object());
    g.set("CSSFontFaceRule", object());
    g.set("CSSFontFeatureValuesMap", object());
    g.set("CSSFontFeatureValuesRule", object());
    g.set("CSSGroupingRule", object());
    g.set("CSSImportRule", object());
    g.set("CSSKeyframeRule", object());
    g.set("CSSKeyframesRule", object());
    g.set("CSSMarginRule", object());
    g.set("CSSMediaRule", object());
    g.set("CSSNamespaceRule", object());
    g.set("CSSPageRule", object());
    g.set("CSSPositionTryRule", object());
    g.set("CSSPositionTryDescriptors", object());
    g.set("CSSRule", object());
    g.set("CSSRuleList", object());
    g.set("CSSStartingStyleRule", object());
    g.set("CSSStyleDeclaration", object());
    g.set("CSSStyleSheet", object());
    g.set("CSSStyleRule", object());
    g.set("CSSSupportRule", object());
    g.set("CSSNestedDeclarations", object());
    g.set("FontFace", object());
    assert forall|k: Seq<char>| outside_web_part7(k) implies #[trigger] keeps_entry(start, g.summary(), k) by {}
}

/// The table of values after part 8 of `add_globals_web`.
#[verifier::opaque]
pub open spec fn web_globals_part8(t: Map<Seq<char>, GlobalView>) -> Map<Seq<char>, GlobalView> {
    let t = put(t, "FontFaceSet"@, plain_summary());
    let t = put(t, "FontFaceSetLoadEvent"@, plain_summary());
    let t = put(t, "MediaList"@, plain_summary());
    let t = put(t, "MediaQueryList"@, plain_summary());
    let t = put(t, "MediaQueryListEvent"@, plain_summary());
    let t = put(t, "Screen"@, plain_summary());
    let t = put(t, "StyleSheet"@, plain_summary());
    let t = put(t, "StyleSheetList"@, plain_summary());
    let t = put(t, "TransitionEvent"@, plain_summary());
    let t = put(t, "VisualViewport"@, plain_summary());
    let t = put(t, "MutationObserver"@, plain_summary());
    let t = put(t, "CanvasRenderingContext2D"@, plain_summary());
    let t = put(t, "CanvasGradient"@, plain_summary());
    let t = put(t, "CanvasPattern"@, plain_summary());
    let t = put(t, "ImageBitmap"@, plain_summary());
    let t = put(t, "ImageData"@, plain_summary());
    let t = put(t, "TextMetrics"@, plain_summary());
    let t = put(t, "OffscreenCanvas"@, plain_summary());
    let t = put(t, "Path2D"@, plain_summary());
    let t = put(t, "ImageBitmapRenderingContext"@, plain_summary());
    let t = put(t, "IDBFactory"@, plain_summary());
    let t = put(t, "IDBOpenDBRequest"@, plain_summary());
    let t = put(t, "IDBDatabase"@, plain_summary());
    let t = put(t, "IDBTransaction"@, plain_summary());
    let t = put(t, "IDBRequest"@, plain_summary());
    t
}

/// `k` is none of the globals of part 8 of `add_globals_web`, nor below one.
#[verifier::opaque]
pub open spec fn outside_web_part8(k: Seq<char>) -> bool {
    &&& !under("FontFaceSet"@, k)
    &&& !under("FontFaceSetLoadEvent"@, k)
    &&& !under("MediaList"@, k)
    &&& !under("MediaQueryList"@, k)
    &&& !under("MediaQueryListEvent"@, k)
    &&& !under("Screen"@, k)
    &&& !under("StyleSheet"@, k)
    &&& !under("StyleSheetList"@, k)
    &&& !under("TransitionEvent"@, k)
    &&& !under("VisualViewport"@, k)
    &&& !under("MutationObserver"@, k)
    &&& !under("CanvasRenderingContext2D"@, k)
    &&& !under("CanvasGradient"@, k)
    &&& !under("CanvasPattern"@, k)
    &&& !under("ImageBitmap"@, k)
    &&& !under("ImageData"@, k)
    &&& !under("TextMetrics"@, k)
    &&& !under("OffscreenCanvas"@, k)
    &&& !under("Path2D"@, k)
    &&& !under("ImageBitmapRenderingContext"@, k)
    &&& !under("IDBFactory"@, k)
    &&& !under("IDBOpenDBRequest"@, k)
    &&& !under("IDBDatabase"@, k)
    &&& !under("IDBTransaction"@, k)
    &&& !under("IDBRequest"@, k)
}

/// The globals of part 8 of `add_globals_web` have names.
proof fn lemma_web_part8_names()
    ensures
        "FontFaceSet"@.len() > 0,
        "FontFaceSetLoadEvent"@.len() > 0,
        "MediaList"@.len() > 0,
        "MediaQueryList"@.len() > 0,
        "MediaQueryListEvent"@.len() > 0,
        "Screen"@.len() > 0,
        "StyleSheet"@.len() > 0,
        "StyleSheetList"@.len() > 0,
        "TransitionEvent"@.len() > 0,
        "VisualViewport"@.len() > 0,
        "MutationObserver"@.len() > 0,
        "CanvasRenderingContext2D"@.len() > 0,
        "CanvasGradient"@.len() > 0,
        "CanvasPattern"@.len() > 0,
        "ImageBitmap"@.len() > 0,
        "ImageData"@.len() > 0,
        "TextMetrics"@.len() > 0,
        "OffscreenCanvas"@.len() > 0,
        "Path2D"@.len() > 0,
        "ImageBitmapRenderingContext"@.len() > 0,
        "IDBFactory"@.len() > 0,
        "IDBOpenDBRequest"@.len() > 0,
        "IDBDatabase"@.len() > 0,
        "IDBTransaction"@.len() > 0,
        "IDBRequest"@.len() > 0,
{
    reveal_strlit("FontFaceSet");
    reveal_strlit("FontFaceSetLoadEvent");
    reveal_strlit("MediaList");
    reveal_strlit("MediaQueryList");
    reveal_strlit("MediaQueryListEvent");
    reveal_strlit("Screen");
    reveal_strlit("StyleSheet");
    reveal_strlit("StyleSheetList");
    reveal_strlit("TransitionEvent");
    reveal_strlit("VisualViewport");
    reveal_strlit("MutationObserver");
    reveal_strlit("CanvasRenderingContext2D");
    reveal_strlit("CanvasGradient");
    reveal_strlit("CanvasPattern");
    reveal_strlit("ImageBitmap");
    reveal_strlit("ImageData");
    reveal_strlit("TextMetrics");
    reveal_strlit("OffscreenCanvas");
    reveal_strlit("Path2D");
    reveal_strlit("ImageBitmapRenderingContext");
    reveal_strlit("IDBFactory");
    reveal_strlit("IDBOpenDBRequest");
    reveal_strlit("IDBDatabase");
    reveal_strlit("IDBTransaction");
    reveal_strlit("IDBRequest");
}

fn add_globals_web_part8(g: &mut Globals)
    ensures
        final(g).root() == old(g).root(),
        final(g).summary() == web_globals_part8(old(g).summary()),
        forall|k: Seq<char>| outside_web_part8(k) ==> #[trigger] keeps_entry(old(g).summary(), final(g).summary(), k),
{
    proof {
        reveal(web_globals_part8);
        reveal(outside_web_part8);
        lemma_web_part8_names();
    }
    let ghost start = g.summary();
    g.set("FontFaceSet", object());
    g.set("FontFaceSetLoadEvent", object());
    g.set("MediaList", object());
    g.set("MediaQueryList", object());
    g.set("MediaQueryListEvent", object());
    g.set("Screen", object());
    g.set("StyleSheet", object());
    g.set("StyleSheetList", object());
    g.set("TransitionEvent", object());
    g.set("VisualViewport", object());

    // https://developer.mozilla.org/en-US/docs/Web/API/MutationObserver
    g.set("MutationObserver", object());

    // https://developer.mozilla.org/en-US/docs/Web/API/Canvas_API
    g.set("CanvasRenderingContext2D", object());
    g.set("CanvasGradient", object());
    g.set("CanvasPattern", object());
    g.set("ImageBitmap", object());
    g.set("ImageData", object());
    g.set("TextMetrics", object());
    g.set("OffscreenCanvas", object());
    g.set("Path2D", object()); // Experimental
    g.set("ImageBitmapRenderingContext", object()); // Experimental

    // https://developer.mozilla.org/en-US/docs/Web/API/IndexedDB_API
    g.set("IDBFactory", object());
    g.set("IDBOpenDBRequest", object());
    g.set("IDBDatabase", object());
    g.set("IDBTransaction", object());
    g.set("IDBRequest", object());
    assert forall|k: Seq<char>| outside_web_part8(k) implies #[trigger] keeps_entry(start, g.summary(), k) by {}
}

/// The table of values after part 9 of `add_globals_web`.
#[verifier::opaque]
pub open spec fn web_globals_part9(t: Map<Seq<char>, GlobalView>) -> Map<Seq<char>, GlobalView> {
    let t = put(t, "IDBObjectStore"@, plain_summary());
    let t = put(t, "IDBIndex"@, plain_summary());
    let t = put(t, "IDBCursor"@, plain_summary());
    let t = put(t, "IDBCursorWithValue"@, plain_summary());
    let t = put(t, "IDBKeyRange"@, plain_summary());
    let t = put(t, "IDBVersionChangeEvent"@, plain_summary());
    let t = put(t, "indexedDB"@, plain_summary());
    let t = put(t, "Credential"@, plain_summary());
    let t = put(t, "CredentialsContainer"@, plain_summary());
    let t = put(t, "FederatedCredential"@, plain_summary());
    let t = put(t, "PasswordCredential"@, plain_summary());
    let t = put(t, "WorkerNavigator"@, plain_summary());
    let t = put(t, "WorkerGlobalScope"@, plain_summary());
    let t = put(t, "Cache"@, plain_summary());
    let t = put(t, "CacheStorage"@, plain_summary());
    let t = put(t, "Client"@, plain_summary());
    let t = put(t, "Clients"@, plain_summary());
    let t = put(t, "ExtendableEvent"@, plain_summary());
    let t = put(t, "ExtendableMessageEvent"@, plain_summary());
    let t = put(t, "FetchEvent"@, plain_summary());
    let t = put(t, "InstallEvent"@, plain_summary());
    let t = put(t, "NavigationPreloadManager"@, plain_summary());
    let t = put(t, "ServiceWorker"@, plain_summary());
    let t = put(t, "ServiceWorkerContainer"@, plain_summary());
    let t = put(t, "ServiceWorkerGlobalScope"@, plain_summary());
    t
}

/// `k` is none of the globals of part 9 of `add_globals_web`, nor below one.
#[verifier::opaque]
pub open spec fn outside_web_part9(k: Seq<char>) -> bool {
    &&& !under("IDBObjectStore"@, k)
    &&& !under("IDBIndex"@, k)
    &&& !under("IDBCursor"@, k)
    &&& !under("IDBCursorWithValue"@, k)
    &&& !under("IDBKeyRange"@, k)
    &&& !under("IDBVersionChangeEvent"@, k)
    &&& !under("indexedDB"@, k)
    &&& !under("Credential"@, k)
    &&& !under("CredentialsContainer"@, k)
    &&& !under("FederatedCredential"@, k)
    &&& !under("PasswordCredential"@, k)
    &&& !under("WorkerNavigator"@, k)
    &&& !under("WorkerGlobalScope"@, k)
    &&& !under("Cache"@, k)
    &&& !under("CacheStorage"@, k)
    &&& !under("Client"@, k)
    &&& !under("Clients"@, k)
    &&& !under("ExtendableEvent"@, k)
    &&& !under("ExtendableMessageEvent"@, k)
    &&& !under("FetchEvent"@, k)
    &&& !under("InstallEvent"@, k)
    &&& !under("NavigationPreloadManager"@, k)
    &&& !under("ServiceWorker"@, k)
    &&& !under("ServiceWorkerContainer"@, k)
    &&& !under("ServiceWorkerGlobalScope"@, k)
}

/// The globals of part 9 of `add_globals_web` have names.
proof fn lemma_web_part9_names()
    ensures
        "IDBObjectStore"@.len() > 0,
        "IDBIndex"@.len() > 0,
        "IDBCursor"@.len() > 0,
        "IDBCursorWithValue"@.len() > 0,
        "IDBKeyRange"@.len() > 0,
        "IDBVersionChangeEvent"@.len() > 0,
        "indexedDB"@.len() > 0,
        "Credential"@.len() > 0,
        "CredentialsContainer"@.len() > 0,
        "FederatedCredential"@.len() > 0,
        "PasswordCredential"@.len() > 0,
        "WorkerNavigator"@.len() > 0,
        "WorkerGlobalScope"@.len() > 0,
        "Cache"@.len() > 0,
        "CacheStorage"@.len() > 0,
        "Client"@.len() > 0,
        "Clients"@.len() > 0,
        "ExtendableEvent"@.len() > 0,
        "ExtendableMessageEvent"@.len() > 0,
        "FetchEvent"@.len() > 0,
        "InstallEvent"@.len() > 0,
        "NavigationPreloadManager"@.len() > 0,
        "ServiceWorker"@.len() > 0,
        "ServiceWorkerContainer"@.len() > 0,
        "ServiceWorkerGlobalScope"@.len() > 0,
{
    reveal_strlit("IDBObjectStore");
    reveal_strlit("IDBIndex");
    reveal_strlit("IDBCursor");
    reveal_strlit("IDBCursorWithValue");
    reveal_strlit("IDBKeyRange");
    reveal_strlit("IDBVersionChangeEvent");
    reveal_strlit("indexedDB");
    reveal_strlit("Credential");
    reveal_strlit("CredentialsContainer");
    reveal_strlit("FederatedCredential");
    reveal_strlit("PasswordCredential");
    reveal_strlit("WorkerNavigator");
    reveal_strlit("WorkerGlobalScope");
    reveal_strlit("Cache");
    reveal_strlit("CacheStorage");
    reveal_strlit("Client");
    reveal_strlit("Clients");
    reveal_strlit("ExtendableEvent");
    reveal_strlit("ExtendableMessageEvent");
    reveal_strlit("FetchEvent");
    reveal_strlit("InstallEvent");
    reveal_strlit("NavigationPreloadManager");
    reveal_strlit("ServiceWorker");
    reveal_strlit("ServiceWorkerContainer");
    reveal_strlit("ServiceWorkerGlobalScope");
}

fn add_globals_web_part9(g: &mut Globals)
    ensures
        final(g).root() == old(g).root(),
        final(g).summary() == web_globals_part9(old(g).summary()),
        forall|k: Seq<char>| outside_web_part9(k) ==> #[trigger] keeps_entry(old(g).summary(), final(g).summary(), k),
{
    proof {
        reveal(web_globals_part9);
        reveal(outside_web_part9);
        lemma_web_part9_names();
    }
    let ghost start = g.summary();
    g.set("IDBObjectStore", object());
    g.set("IDBIndex", object());
    g.set("IDBCursor", object());
    g.set("IDBCursorWithValue", object());
    g.set("IDBKeyRange", object());
    g.set("IDBVersionChangeEvent", object());
    g.set("indexedDB", object());

    // https://developer.mozilla.org/en-US/docs/Web/API/Credential_Management_API
    g.set("Credential", object());
    g.set("CredentialsContainer", object());
    g.set("FederatedCredential", object());
    g.set("PasswordCredential", object());

    // https://developer.mozilla.org/en-US/docs/Web/API/Web_Workers_API
    g.set("WorkerNavigator", object());
    g.set("WorkerGlobalScope", object());

    // https://developer.mozilla.org/en-US/docs/Web/API/Service_Worker_API
    g.set("Cache", object());
    g.set("CacheStorage", object());
    g.set("Client", object());
    g.set("Clients", object());
    g.set("ExtendableEvent", object());
    g.set("ExtendableMessageEvent", object());
    g.set("FetchEvent", object());
    g.set("InstallEvent", object());
    g.set("NavigationPreloadManager", object());
    g.set("ServiceWorker", object());
    g.set("ServiceWorkerContainer", object());
    g.set("ServiceWorkerGlobalScope", object());
    assert forall|k: Seq<char>| outside_web_part9(k) implies #[trigger] keeps_entry(start, g.summary(), k) by {}
}

/// The table of values after part 10 of `add_globals_web`.
#[verifier::opaque]
pub open spec fn web_globals_part10(t: Map<Seq<char>, GlobalView>) -> Map<Seq<char>, GlobalView> {
    let t = put(t, "ServiceWorkerRegistration"@, plain_summary());
    let t = put(t, "WindowClient"@, plain_summary());
    let t = put(t, "caches"@, plain_summary());
    let t = put(t, "cookieStore"@, plain_summary());
    let t = put(t, "CookieStore"@, plain_summary());
    let t = put(t, "cookieStoreManager"@, plain_summary());
    let t = put(t, "CookieChangeEvent"@, plain_summary());
    let t = put(t, "ExtendableCookieChangeEvent"@, plain_summary());
    let t = put(t, "MediaDevices"@, plain_summary());
    let t = put(t, "IntersectionObserver"@, plain_summary());
    let t = put(t, "IntersectionObserverEntry"@, plain_summary());
    let t = put(t, "IdleDeadline"@, plain_summary());
    let t = put(t, "requestIdleCallback"@, plain_summary());
    let t = put(t, "cancelIdleCallback"@, plain_summary());
    let t = put(t, "Scheduler"@, plain_summary());
    let t = put(t, "scheduler"@, plain_summary());
    let t = put(t, "Highlight"@, plain_summary());
    let t = put(t, "HighlightRegistry"@, plain_summary());
    let t = put(t, "EditContext"@, plain_summary());
    let t = put(t, "TextFormat"@, plain_summary());
    let t = put(t, "TextUpdateEvent"@, plain_summary());
    let t = put(t, "TextFormatUpdateEvent"@, plain_summary());
    let t = put(t, "CharacterBoundsUpdateEvent"@, plain_summary());
    t
}

/// `k` is none of the globals of part 10 of `add_globals_web`, nor below one.
#[verifier::opaque]
pub open spec fn outside_web_part10(k: Seq<char>) -> bool {
    &&& !under("ServiceWorkerRegistration"@, k)
    &&& !under("WindowClient"@, k)
    &&& !under("caches"@, k)
    &&& !under("cookieStore"@, k)
    &&& !under("CookieStore"@, k)
    &&& !under("cookieStoreManager"@, k)
    &&& !under("CookieChangeEvent"@, k)
    &&& !under("ExtendableCookieChangeEvent"@, k)
    &&& !under("MediaDevices"@, k)
    &&& !under("IntersectionObserver"@, k)
    &&& !under("IntersectionObserverEntry"@, k)
    &&& !under("IdleDeadline"@, k)
    &&& !under("requestIdleCallback"@, k)
    &&& !under("cancelIdleCallback"@, k)
    &&& !under("Scheduler"@, k)
    &&& !under("scheduler"@, k)
    &&& !under("Highlight"@, k)
    &&& !under("HighlightRegistry"@, k)
    &&& !under("EditContext"@, k)
    &&& !under("TextFormat"@, k)
    &&& !under("TextUpdateEvent"@, k)
    &&& !under("TextFormatUpdateEvent"@, k)
    &&& !under("CharacterBoundsUpdateEvent"@, k)
}

/// The globals of part 10 of `add_globals_web` have names.
proof fn lemma_web_part10_names()
    ensures
        "ServiceWorkerRegistration"@.len() > 0,
        "WindowClient"@.len() > 0,
        "caches"@.len() > 0,
        "cookieStore"@.len() > 0,
        "CookieStore"@.len() > 0,
        "cookieStoreManager"@.len() > 0,
        "CookieChangeEvent"@.len() > 0,
        "ExtendableCookieChangeEvent"@.len() > 0,
        "MediaDevices"@.len() > 0,
        "IntersectionObserver"@.len() > 0,
        "IntersectionObserverEntry"@.len() > 0,
        "IdleDeadline"@.len() > 0,
        "requestIdleCallback"@.len() > 0,
        "cancelIdleCallback"@.len() > 0,
        "Scheduler"@.len() > 0,
        "scheduler"@.len() > 0,
        "Highlight"@.len() > 0,
        "HighlightRegistry"@.len() > 0,
        "EditContext"@.len() > 0,
        "TextFormat"@.len() > 0,
        "TextUpdateEvent"@.len() > 0,
        "TextFormatUpdateEvent"@.len() > 0,
        "CharacterBoundsUpdateEvent"@.len() > 0,
{
    reveal_strlit("ServiceWorkerRegistration");
    reveal_strlit("WindowClient");
    reveal_strlit("caches");
    reveal_strlit("cookieStore");
    reveal_strlit("CookieStore");
    reveal_strlit("cookieStoreManager");
    reveal_strlit("CookieChangeEvent");
    reveal_strlit("ExtendableCookieChangeEvent");
    reveal_strlit("MediaDevices");
    reveal_strlit("IntersectionObserver");
    reveal_strlit("IntersectionObserverEntry");
    reveal_strlit("IdleDeadline");
    reveal_strlit("requestIdleCallback");
    reveal_strlit("cancelIdleCallback");
    reveal_strlit("Scheduler");
    reveal_strlit("scheduler");
    reveal_strlit("Highlight");
    reveal_strlit("HighlightRegistry");
    reveal_strlit("EditContext");
    reveal_strlit("TextFormat");
    reveal_strlit("TextUpdateEvent");
    reveal_strlit("TextFormatUpdateEvent");
    reveal_strlit("CharacterBoundsUpdateEvent");
}

fn add_globals_web_part10(g: &mut Globals)
    ensures
        final(g).root() == old(g).root(),
        final(g).summary() == web_globals_part10(old(g).summary()),
        forall|k: Seq<char>| outside_web_part10(k) ==> #[trigger] keeps_entry(old(g).summary(), final(g).summary(), k),
{
    proof {
        reveal(web_globals_part10);
        reveal(outside_web_part10);
        lemma_web_part10_names();
    }
    let ghost start = g.summary();
    g.set("ServiceWorkerRegistration", object());
    g.set("WindowClient", object());
    g.set("caches", object());

    // https://developer.mozilla.org/en-US/docs/Web/API/Cookie_Store_API
    g.set("cookieStore", object()); // Experimental
    g.set("CookieStore", object()); // Experimental
    g.set("cookieStoreManager", object()); // Experimental
    g.set("CookieChangeEvent", object()); // Experimental
    g.set("ExtendableCookieChangeEvent", object()); // Experimental

    // https://developer.mozilla.org/en-US/docs/Web/API/MediaDevices
    g.set("MediaDevices", object());

    // https://developer.mozilla.org/en-US/docs/Web/API/Intersection_Observer_API
    g.set("IntersectionObserver", object());
    g.set("IntersectionObserverEntry", object());

    // https://developer.mozilla.org/en-US/docs/Web/API/Idle_Detection_API
    g.set("IdleDeadline", object()); // Experimental
    g.set("requestIdleCallback", object()); // Experimental
    g.set("cancelIdleCallback", object()); // Experimental

    // https://developer.mozilla.org/en-US/docs/Web/API/Scheduler
    g.set("Scheduler", object()); // Experimental
    g.set("scheduler", object()); // Experimental

    // https://developer.mozilla.org/en-US/docs/Web/API/CSS_Custom_Highlight_API
    g.set("Highlight", object());
    g.set("HighlightRegistry", object());

    // https://developer.mozilla.org/en-US/docs/Web/API/EditContext_API
    g.set("EditContext", object());
    g.set("TextFormat", object());
    g.set("TextUpdateEvent", object());
    g.set("TextFormatUpdateEvent", object());
    g.set("CharacterBoundsUpdateEvent", object());
    assert forall|k: Seq<char>| outside_web_part10(k) implies #[trigger] keeps_entry(start, g.summary(), k) by {}
}

/// `k` is none of the globals that `add_globals_web` adds, nor below one.
pub open spec fn outside_web(k: Seq<char>) -> bool {
    &&& outside_web_part1(k)
    &&& outside_web_part2(k)
    &&& outside_web_part3(k)
    &&& outside_web_part4(k)
    &&& outside_web_part5(k)
    &&& outside_web_part6(k)
    &&& outside_web_part7(k)
    &&& outside_web_part8(k)
    &&& outside_web_part9(k)
    &&& outside_web_part10(k)
}

pub(crate) fn add_globals_web(g: &mut Globals)
    ensures
        final(g).root() == old(g).root(),
        final(g).summary() == web_globals(old(g).summary()),
        forall|k: Seq<char>| outside_web(k) ==> #[trigger] keeps_entry(old(g).summary(), final(g).summary(), k),
{
    let ghost s0 = g.summary();
    add_globals_web_part1(g);
    let ghost s1 = g.summary();
    add_globals_web_part2(g);
    let ghost s2 = g.summary();
    add_globals_web_part3(g);
    let ghost s3 = g.summary();
    add_globals_web_part4(g);
    let ghost s4 = g.summary();
    add_globals_web_part5(g);
    let ghost s5 = g.summary();
    add_globals_web_part6(g);
    let ghost s6 = g.summary();
    add_globals_web_part7(g);
    let ghost s7 = g.summary();
    add_globals_web_part8(g);
    let ghost s8 = g.summary();
    add_globals_web_part9(g);
    let ghost s9 = g.summary();
    add_globals_web_part10(g);
    let ghost s10 = g.summary();
    assert forall|k: Seq<char>| outside_web(k) implies #[trigger] keeps_entry(s0, s10, k) by {
        assert(keeps_entry(s0, s1, k));
        assert(keeps_entry(s1, s2, k));
        assert(keeps_entry(s2, s3, k));
        assert(keeps_entry(s3, s4, k));
        assert(keeps_entry(s4, s5, k));
        assert(keeps_entry(s5, s6, k));
        assert(keeps_entry(s6, s7, k));
        assert(keeps_entry(s7, s8, k));
        assert(keeps_entry(s8, s9, k));
        assert(keeps_entry(s9, s10, k));
    }
}

pub(crate) fn add_globals_web_typed_css(g: &mut Globals)
    ensures
        final(g).root() == old(g).root(),
        final(g).summary() == web_typed_css_globals(old(g).summary()),
{
    proof {
        reveal(web_typed_css_globals);
    }
    g.set(
        "CSS",
        object().with_static("registerProperty", object()).with_static("highlights", object()),
    );
    g.set("CSSPropertyRule", object());
    g.set(
        "CSSStyleValue",
        object().with_static("parseAll", object()).with_static("parse", object()),
    );
    g.set("CSSImageValue", object());
    g.set("CSSKeywordValue", object());
    g.set("CSSMathValue", object());
    g.set("CSSMathInvert", object());
    g.set("CSSMathMax", object());
    g.set("CSSMathMin", object());
    g.set("CSSMathNegate", object());
    g.set("CSSMathProduct", object());
    g.set("CSSMathSum", object());
    g.set("CSSNumericValue", object());
    g.set("CSSNumericArray", object());
    g.set("CSSPerspective", object());
    g.set("CSSPositionValue", object());
    g.set("CSSRotate", object());
    g.set("CSSScale", object());
    g.set("CSSSkew", object());
    g.set("CSSSkewX", object());
    g.set("CSSSkewY", object());
    g.set("CSSTransformValue", object());
    g.set("CSSTransformComponent", object());
    g.set("CSSTranslate", object());
    g.set("CSSUnitValue", object());
    g.set("CSSUnparsedValue", object());
    g.set("CSSVariableReferenceValue", object());
    g.set("StylePropertyMap", object());
    g.set("StylePropertyMapReadOnly", object());
}

// https://developer.mozilla.org/en-US/docs/Web/API/Background_Fetch_API
pub(crate) fn add_globals_web_background_fetch(g: &mut Globals)
    ensures
        final(g).root() == old(g).root(),
        final(g).summary() == web_background_fetch_globals(old(g).summary()),
{
    proof {
        reveal(web_background_fetch_globals);
    }
    g.set("BackgroundFetchManager", object());
    g.set("BackgroundFetchRegistration", object());
    g.set("BackgroundFetchRecord", object());
    g.set("BackgroundFetchEvent", object());
    g.set("BackgroundFetchUIEvent", object());
}

// https://developer.mozilla.org/en-US/docs/Web/API/Background_Synchronization_API
pub(crate) fn add_globals_web_sync(g: &mut Globals)
    ensures
        final(g).root() == old(g).root(),
        final(g).summary() == web_sync_globals(old(g).summary()),
{
    proof {
        reveal(web_sync_globals);
    }
    g.set("SyncManager", object());
    g.set("SyncEvent", object());
}

// https://developer.mozilla.org/en-US/docs/Web/API/Battery_Status_API
pub(crate) fn add_globals_web_battery(g: &mut Globals)
    ensures
        final(g).root() == old(g).root(),
        final(g).summary() == web_battery_globals(old(g).summary()),
{
    proof {
        reveal(web_battery_globals);
    }
    g.set("BatteryManager", object());
}

// https://developer.mozilla.org/en-US/docs/Web/API/Barcode_Detection_API
pub(crate) fn add_globals_web_barcode(g: &mut Globals)
    ensures
        final(g).root() == old(g).root(),
        final(g).summary() == web_barcode_globals(old(g).summary()),
{
    proof {
        reveal(web_barcode_globals);
    }
    g.set("BarcodeDetector", object());
}

// https://developer.mozilla.org/en-US/docs/Web/API/Web_Bluetooth_API
pub(crate) fn add_globals_web_bluetooth(g: &mut Globals)
    ensures
        final(g).root() == old(g).root(),
        final(g).summary() == web_bluetooth_globals(old(g).summary()),
{
    proof {
        reveal(web_bluetooth_globals);
    }
    g.set("Bluetooth", object());
    g.set("BluetoothCharacteristicProperties", object());
    g.set("BluetoothDevice", object());
    g.set("BluetoothRemoteGATTCharacteristic", object());
    g.set("BluetoothRemoteGATTDescriptor", object());
    g.set("BluetoothRemoteGATTServer", object());
    g.set("BluetoothRemoteGATTService", object());
}

// https://developer.mozilla.org/en-US/docs/Web/API/CSS_Painting_API
pub(crate) fn add_globals_web_paint(g: &mut Globals)
    ensures
        final(g).root() == old(g).root(),
        final(g).summary() == web_paint_globals(old(g).summary()),
{
    proof {
        reveal(web_paint_globals);
    }
    g.set("PaintWorkletGlobalScope", object());
    g.set("PaintRenderingContext2D", object());
    g.set("PaintSize", object());
}

} // verus!
